//! The quote data model: a single quote, a collection of quotes, and the
//! rendering rule that turns a quote into a printable line.

use vstd::prelude::*;
use vstd::string::StringExecFns;

verus! {

/// One quote: its text, an attribution (possibly empty), and a list of
/// category tags (possibly empty).
pub struct Quote {
    pub quote: String,
    pub author: String,
    pub tags: Vec<String>,
}

/// The mathematical value of a [`Quote`]: its three fields as sequences.
pub struct QuoteView {
    pub quote: Seq<char>,
    pub author: Seq<char>,
    pub tags: Seq<Seq<char>>,
}

impl View for Quote {
    type V = QuoteView;

    open spec fn view(&self) -> QuoteView {
        QuoteView { quote: self.quote@, author: self.author@, tags: self.tags.deep_view() }
    }
}

impl DeepView for Quote {
    type V = QuoteView;

    open spec fn deep_view(&self) -> QuoteView {
        self.view()
    }
}

/// A collection of quotes, in the order they were read from the source text.
pub struct AllQuotes {
    pub quotes: Vec<Quote>,
}

impl View for AllQuotes {
    type V = Seq<QuoteView>;

    open spec fn view(&self) -> Seq<QuoteView> {
        self.quotes.deep_view()
    }
}

/// The fixed line shown in place of a quote whose text is empty.
pub open spec fn missing_text() -> Seq<char> {
    "<Quote missing.>"@
}

/// What rendering a quote yields: the sentinel line for an empty text,
/// the text alone for an empty author, and `"{text} - {author}"` otherwise.
pub open spec fn render_spec(q: QuoteView) -> Seq<char> {
    if q.quote.len() == 0 {
        missing_text()
    } else if q.author.len() == 0 {
        q.quote
    } else {
        q.quote + " - "@ + q.author
    }
}

impl Quote {
    /// Render this quote as the single line that is printed for it.
    pub fn render(&self) -> (r: String)
        ensures
            r@ == render_spec(self@),
    {
        if self.quote.as_str().is_empty() {
            String::from_str("<Quote missing.>")
        } else if self.author.as_str().is_empty() {
            self.quote.clone()
        } else {
            let mut r = self.quote.clone();
            r.append(" - ");
            r.append(self.author.as_str());
            r
        }
    }
}

/// Rendering yields the missing-text sentinel exactly for quotes with empty
/// text. The one family of inputs left out: a quote whose text is itself the
/// sentinel line and whose author is empty renders as that same line.
pub proof fn lemma_render_missing_iff(q: QuoteView)
    requires
        !(q.author.len() == 0 && q.quote == missing_text()),
    ensures
        render_spec(q) == missing_text() <==> q.quote.len() == 0,
{
    reveal_strlit("<Quote missing.>");
    reveal_strlit(" - ");
    if q.quote.len() > 0 && q.author.len() > 0 {
        let r = q.quote + " - "@ + q.author;
        assert(r[q.quote.len() as int + 1] == '-');
        if r == missing_text() {
            assert(q.quote.len() + 1 < missing_text().len());
            assert(forall|i: int| 0 <= i < missing_text().len() ==> missing_text()[i] != '-');
            assert(false);
        }
    }
}

/// A quote with text but no author renders as its text alone.
pub proof fn lemma_render_text_only(q: QuoteView)
    requires
        q.quote.len() > 0,
        q.author.len() == 0,
    ensures
        render_spec(q) == q.quote,
{
}

/// A quote with text and author renders as the text, a separating dash,
/// and the author.
pub proof fn lemma_render_attributed(q: QuoteView)
    requires
        q.quote.len() > 0,
        q.author.len() > 0,
    ensures
        render_spec(q) == q.quote + " - "@ + q.author,
{
}

impl Clone for Quote {
    fn clone(&self) -> (r: Self)
        ensures
            r@ == self@,
    {
        let mut tags: Vec<String> = Vec::new();
        let mut i: usize = 0;
        while i < self.tags.len()
            invariant
                i <= self.tags.len(),
                tags@.len() == i as int,
                forall|k: int| 0 <= k < i ==> tags@[k]@ == self.tags@[k]@,
            decreases self.tags.len() - i,
        {
            tags.push(self.tags[i].clone());
            i = i + 1;
        }
        proof {
            assert(tags.deep_view() =~= self.tags.deep_view());
        }
        Quote { quote: self.quote.clone(), author: self.author.clone(), tags }
    }
}


/// The text of the built-in quote collection: a fixed JSON document embedded
/// in the program, fed through the same parser as a user-supplied file.
pub open spec fn built_in_text() -> Seq<char> {
    r#"{
          "quotes": [
            {
              "quote": "Mindset is everything",
              "author": "",
              "tags": [
                "Motivational",
                "Positivity"
              ]
            },
            {
              "quote": "If you want people to do something, make it easy",
              "author": "Richard Thaler",
              "tags": [
                "Motivational"
              ]
            },
            {
              "quote": "You will never reach your destination if you stop and throw stones at every dog that barks",
              "author": "Winston Churchill",
              "tags": [
                "Stoic"
              ]
            },
            {
              "quote": "Comparison is the thief of joy",
              "author": "Theodore Roosevelt",
              "tags": []
            },
            {
              "quote": "I've missed more than 9000 shots in my career. I've lost almost 300 games. 26 times, I've been trusted to take the game winning shot and missed. I've failed over and over and over again in my life. And that is why I succeed.",
              "author": "Michael Jordan",
              "tags": []
            },
            {
              "quote": "I can give you a six-word formula for success: Think things through, then follow through.",
              "author": "Captain Edward V. Rickenbacker",
              "tags": []
            },
            {
              "quote": "We are what we repeatedly do. Excellence, therefore, is not an act but a habit.",
              "author": "Aristotle",
              "tags": []
            },
            {
              "quote": "Do, or do not, there is no try",
              "author": "Yoda",
              "tags": []
            },
            {
              "quote": "Whether you think you can or think you can't, you're right.",
              "author": "Henry Ford",
              "tags": []
            },
            {
              "quote": "When it is dark enough, you can see the stars.",
              "author": "Ralph Waldo Emerson",
              "tags": []
            },
            {
              "quote": "Wait for the right opportunity not the next available one",
              "author": "",
              "tags": []
            },
            {
              "quote": "Sometimes you need to slow down to speed up",
              "author": "",
              "tags": []
            },
            {
              "quote": "Great moments are born from great opportunities",
              "author": "",
              "tags": []
            },
            {
              "quote": "If I had an hour to solve a problem I'd spend 55 minutes thinking about the problem and 5 minutes thinking about solutions.",
              "author": "Albert Einstein",
              "tags": []
            },
            {
              "quote": "If you do your best you might get outscored but you will never lose",
              "author": "",
              "tags": []
            },
            {
              "quote": "Be yourself; everyone is already taken",
              "author": "Oscar Wilde",
              "tags": []
            },
            {
              "quote": "Never let a good crisis go to waste",
              "author": "Rahm Emanuel",
              "tags": []
            },
            {
              "quote": "Pain is mandatory, suffering is optional",
              "author": "",
              "tags": []
            },
            {
              "quote": "Our choices today affects our options tomorrow",
              "author": "",
              "tags": []
            },
            {
              "quote": "Between stimulus and response there is a space. In that space is our power to choose our response. In our response lies our growth and our freedom",
              "author": "",
              "tags": []
            },
            {
              "quote": "A smooth sea never made a skillful mariner",
              "author": "",
              "tags": []
            },
            {
              "quote": "A peaceful mind generates power",
              "author": "",
              "tags": [
                "Stoic"
              ]
            },
            {
              "quote": "The happiness of our lives depends upon the quality of our thoughts",
              "author": "Marcus Aurelius",
              "tags": [
                "Stoic"
              ]
            },
            {
              "quote": "Hard choices, easy life. Easy choices, hard life.",
              "author": "Jerzy Gregorek",
              "tags": []
            },
            {
              "quote": "Success in anything is just a byproduct of learning, and learning is a byproduct of curiosity.",
              "author": "",
              "tags": []
            },
            {
              "quote": "Ultimately, if you are curious about something, you will be successful at it, and the more curious you are about it, the more successful you will be at it.",
              "author": "Naval",
              "tags": []
            },
            {
              "quote": "Nullius in verba (take nobody's word for it)",
              "author": "",
              "tags": []
            },
            {
              "quote": "New goals don't deliver new results. New lifestyles do. And a lifestyle is a process, not an outcome. For this reason, your energy should go into building better habits, not chasing better results.",
              "author": "@JamesClear",
              "tags": []
            },
            {
              "quote": "The plan won't give you the action, the action will give you the plan.",
              "author": "",
              "tags": []
            },
            {
              "quote": "If you always do what you always did, you always get what you always got.",
              "author": "",
              "tags": []
            },
            {
              "quote": "Nothing in life is to be feared, it is only to be understood. Now is the time to understand more, so that we may fear less.",
              "author": "Marie Curie",
              "tags": []
            },
            {
              "quote": "Wants make you a servant",
              "author": "Seneca",
              "tags": [
                "stoic"
              ]
            },
            {
              "quote": "Discomfort with uncertainty causes more anxiety than guaranteed bad news.",
              "author": "",
              "tags": []
            },
            {
              "quote": "The praise from being right becomes the pain from being wrong.",
              "author": "Naval",
              "tags": []
            },
            {
              "quote": "Leisure without study is death - a tomb for the living person.",
              "author": "Seneca",
              "tags": [
                "Stoic"
              ]
            }
          ]
        }"#@
}

impl Quote {
    /// The built-in quote collection, used when no quotes file is supplied.
    pub fn built_in_quotes() -> (r: String)
        ensures
            r@ == built_in_text(),
    {
        String::from_str(r#"{
          "quotes": [
            {
              "quote": "Mindset is everything",
              "author": "",
              "tags": [
                "Motivational",
                "Positivity"
              ]
            },
            {
              "quote": "If you want people to do something, make it easy",
              "author": "Richard Thaler",
              "tags": [
                "Motivational"
              ]
            },
            {
              "quote": "You will never reach your destination if you stop and throw stones at every dog that barks",
              "author": "Winston Churchill",
              "tags": [
                "Stoic"
              ]
            },
            {
              "quote": "Comparison is the thief of joy",
              "author": "Theodore Roosevelt",
              "tags": []
            },
            {
              "quote": "I've missed more than 9000 shots in my career. I've lost almost 300 games. 26 times, I've been trusted to take the game winning shot and missed. I've failed over and over and over again in my life. And that is why I succeed.",
              "author": "Michael Jordan",
              "tags": []
            },
            {
              "quote": "I can give you a six-word formula for success: Think things through, then follow through.",
              "author": "Captain Edward V. Rickenbacker",
              "tags": []
            },
            {
              "quote": "We are what we repeatedly do. Excellence, therefore, is not an act but a habit.",
              "author": "Aristotle",
              "tags": []
            },
            {
              "quote": "Do, or do not, there is no try",
              "author": "Yoda",
              "tags": []
            },
            {
              "quote": "Whether you think you can or think you can't, you're right.",
              "author": "Henry Ford",
              "tags": []
            },
            {
              "quote": "When it is dark enough, you can see the stars.",
              "author": "Ralph Waldo Emerson",
              "tags": []
            },
            {
              "quote": "Wait for the right opportunity not the next available one",
              "author": "",
              "tags": []
            },
            {
              "quote": "Sometimes you need to slow down to speed up",
              "author": "",
              "tags": []
            },
            {
              "quote": "Great moments are born from great opportunities",
              "author": "",
              "tags": []
            },
            {
              "quote": "If I had an hour to solve a problem I'd spend 55 minutes thinking about the problem and 5 minutes thinking about solutions.",
              "author": "Albert Einstein",
              "tags": []
            },
            {
              "quote": "If you do your best you might get outscored but you will never lose",
              "author": "",
              "tags": []
            },
            {
              "quote": "Be yourself; everyone is already taken",
              "author": "Oscar Wilde",
              "tags": []
            },
            {
              "quote": "Never let a good crisis go to waste",
              "author": "Rahm Emanuel",
              "tags": []
            },
            {
              "quote": "Pain is mandatory, suffering is optional",
              "author": "",
              "tags": []
            },
            {
              "quote": "Our choices today affects our options tomorrow",
              "author": "",
              "tags": []
            },
            {
              "quote": "Between stimulus and response there is a space. In that space is our power to choose our response. In our response lies our growth and our freedom",
              "author": "",
              "tags": []
            },
            {
              "quote": "A smooth sea never made a skillful mariner",
              "author": "",
              "tags": []
            },
            {
              "quote": "A peaceful mind generates power",
              "author": "",
              "tags": [
                "Stoic"
              ]
            },
            {
              "quote": "The happiness of our lives depends upon the quality of our thoughts",
              "author": "Marcus Aurelius",
              "tags": [
                "Stoic"
              ]
            },
            {
              "quote": "Hard choices, easy life. Easy choices, hard life.",
              "author": "Jerzy Gregorek",
              "tags": []
            },
            {
              "quote": "Success in anything is just a byproduct of learning, and learning is a byproduct of curiosity.",
              "author": "",
              "tags": []
            },
            {
              "quote": "Ultimately, if you are curious about something, you will be successful at it, and the more curious you are about it, the more successful you will be at it.",
              "author": "Naval",
              "tags": []
            },
            {
              "quote": "Nullius in verba (take nobody's word for it)",
              "author": "",
              "tags": []
            },
            {
              "quote": "New goals don't deliver new results. New lifestyles do. And a lifestyle is a process, not an outcome. For this reason, your energy should go into building better habits, not chasing better results.",
              "author": "@JamesClear",
              "tags": []
            },
            {
              "quote": "The plan won't give you the action, the action will give you the plan.",
              "author": "",
              "tags": []
            },
            {
              "quote": "If you always do what you always did, you always get what you always got.",
              "author": "",
              "tags": []
            },
            {
              "quote": "Nothing in life is to be feared, it is only to be understood. Now is the time to understand more, so that we may fear less.",
              "author": "Marie Curie",
              "tags": []
            },
            {
              "quote": "Wants make you a servant",
              "author": "Seneca",
              "tags": [
                "stoic"
              ]
            },
            {
              "quote": "Discomfort with uncertainty causes more anxiety than guaranteed bad news.",
              "author": "",
              "tags": []
            },
            {
              "quote": "The praise from being right becomes the pain from being wrong.",
              "author": "Naval",
              "tags": []
            },
            {
              "quote": "Leisure without study is death - a tomb for the living person.",
              "author": "Seneca",
              "tags": [
                "Stoic"
              ]
            }
          ]
        }"#)
    }
}


} // verus!
