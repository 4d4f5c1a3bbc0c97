//! The selector and printer stage: from a (possibly filtered) collection and
//! the show-all choice to the exact lines that go to standard output.

use vstd::prelude::*;
use vstd::string::StringExecFns;
use rand::Rng;
use crate::quotes::{AllQuotes, QuoteView, render_spec};

verus! {

/// The notice printed when no quotes are left to show.
pub open spec fn no_match_notice() -> Seq<char> {
    "Selected Tag returned no matching quotes."@
}

/// Relies on rand::thread_rng and Rng::gen_range: a sample from `0..n` lies
/// in that range (the call panics on an empty range, so `n` must be
/// positive). Nothing is assumed about the distribution.
#[verifier::external_body]
fn pick_index(n: usize) -> (r: usize)
    requires
        1 <= n,
    ensures
        r < n,
{
    rand::thread_rng().gen_range(0..n)
}

/// The lines printed when every quote is shown: each quote rendered, each
/// followed by a blank separator line, in collection order.
pub open spec fn rendered_lines(qs: Seq<QuoteView>) -> Seq<Seq<char>>
    decreases qs.len(),
{
    if qs.len() == 0 {
        Seq::empty()
    } else {
        rendered_lines(qs.drop_last()) + seq![render_spec(qs.last()), Seq::<char>::empty()]
    }
}

/// Showing all prints exactly two lines per quote — its rendering, then a
/// blank line — in collection order.
pub proof fn lemma_rendered_lines(qs: Seq<QuoteView>)
    ensures
        rendered_lines(qs).len() == 2 * qs.len(),
        forall|k: int|
            0 <= k < qs.len() ==> rendered_lines(qs)[2 * k] == render_spec(#[trigger] qs[k])
                && rendered_lines(qs)[2 * k + 1] == Seq::<char>::empty(),
    decreases qs.len(),
{
    if qs.len() > 0 {
        let rest = qs.drop_last();
        lemma_rendered_lines(rest);
        assert forall|k: int|
            0 <= k < qs.len() implies rendered_lines(qs)[2 * k] == render_spec(qs[k])
            && rendered_lines(qs)[2 * k + 1] == Seq::<char>::empty() by {
            if k < rest.len() {
                assert(qs[k] == rest[k]);
                assert(rendered_lines(qs)[2 * k] == rendered_lines(rest)[2 * k]);
                assert(rendered_lines(qs)[2 * k + 1] == rendered_lines(rest)[2 * k + 1]);
            } else {
                assert(qs[k] == qs.last());
            }
        }
    }
}

/// What presenting must print: the notice alone for an empty collection;
/// every quote rendered with blank separators when all are shown; else a
/// single rendered quote drawn from the collection.
pub open spec fn present_post(qs: Seq<QuoteView>, show_all: bool, out: Seq<Seq<char>>) -> bool {
    if qs.len() == 0 {
        out.len() == 1 && out[0] == no_match_notice()
    } else if show_all {
        out == rendered_lines(qs)
    } else {
        out.len() == 1 && exists|k: int| 0 <= k < qs.len() && out[0] == render_spec(#[trigger] qs[k])
    }
}

/// Produce the lines that presenting the collection prints: the no-match
/// notice, every quote, or one quote picked at random.
pub fn present(c: &AllQuotes, show_all: bool) -> (out: Vec<String>)
    ensures
        present_post(c@, show_all, out.deep_view()),
{
    let mut out: Vec<String> = Vec::new();
    if c.quotes.len() == 0 {
        out.push(String::from_str("Selected Tag returned no matching quotes."));
        proof {
            assert(out.deep_view() =~= seq![no_match_notice()]);
        }
    } else if show_all {
        let mut i: usize = 0;
        proof {
            assert(out.deep_view() =~= rendered_lines(c@.subrange(0, 0)));
        }
        while i < c.quotes.len()
            invariant
                i <= c.quotes@.len(),
                out@.len() == 2 * i,
                out.deep_view() == rendered_lines(c@.subrange(0, i as int)),
            decreases c.quotes@.len() - i,
        {
            let ghost pre = c@.subrange(0, i as int);
            let line = c.quotes[i].render();
            out.push(line);
            out.push(String::new());
            proof {
                let post = c@.subrange(0, i + 1);
                assert(post.drop_last() =~= pre);
                assert(post.last() == c@[i as int]);
                assert(out.deep_view() =~= rendered_lines(pre) + seq![
                    render_spec(c@[i as int]),
                    Seq::<char>::empty(),
                ]);
                assert(out.deep_view() == rendered_lines(post));
            }
            i = i + 1;
        }
        proof {
            assert(c@.subrange(0, c.quotes@.len() as int) =~= c@);
        }
    } else {
        let idx = pick_index(c.quotes.len());
        let line = c.quotes[idx].render();
        out.push(line);
        proof {
            assert(out.deep_view() =~= seq![render_spec(c@[idx as int])]);
            assert(out.deep_view()[0] == render_spec(c@[idx as int]));
        }
    }
    out
}

} // verus!
