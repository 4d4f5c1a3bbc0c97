//! The tag filter: narrowing a collection to the quotes that carry a given
//! tag, compared case-insensitively.

use vstd::prelude::*;
use crate::quotes::{AllQuotes, Quote, QuoteView};

verus! {

/// The case-folded form of a string, as `str::to_lowercase` computes it.
pub uninterp spec fn lower_of(s: Seq<char>) -> Seq<char>;

/// Relies on str::to_lowercase: the result is a function of the characters
/// alone.
#[verifier::external_body]
fn lowercase(s: &str) -> (r: String)
    ensures
        r@ == lower_of(s@),
{
    s.to_lowercase()
}

/// Whether some tag of `q` case-folds to `lt` (itself already folded).
pub open spec fn has_tag(q: QuoteView, lt: Seq<char>) -> bool {
    exists|j: int| 0 <= j < q.tags.len() && lower_of(#[trigger] q.tags[j]) == lt
}

/// The subsequence of `qs` whose quotes carry the tag, in their original
/// order; a quote enters once however many of its tags match.
pub open spec fn filter_spec(qs: Seq<QuoteView>, lt: Seq<char>) -> Seq<QuoteView>
    decreases qs.len(),
{
    if qs.len() == 0 {
        Seq::empty()
    } else {
        filter_spec(qs.drop_last(), lt) + (if has_tag(qs.last(), lt) {
            seq![qs.last()]
        } else {
            Seq::empty()
        })
    }
}

fn quote_has_tag(q: &Quote, ltag: &String) -> (b: bool)
    ensures
        b == has_tag(q@, ltag@),
{
    let mut j: usize = 0;
    while j < q.tags.len()
        invariant
            j <= q.tags@.len(),
            forall|k: int| 0 <= k < j ==> lower_of(#[trigger] q@.tags[k]) != ltag@,
        decreases q.tags@.len() - j,
    {
        let lt = lowercase(q.tags[j].as_str());
        if lt == *ltag {
            proof {
                assert(lower_of(q@.tags[j as int]) == ltag@);
            }
            return true;
        }
        j = j + 1;
    }
    false
}

/// Narrow the collection to the quotes carrying `tag`. An empty tag keeps
/// the collection as it is; otherwise exactly the quotes with a
/// case-insensitive match among their tags survive, in collection order.
pub fn filter(c: &AllQuotes, tag: &String) -> (r: AllQuotes)
    ensures
        tag@.len() == 0 ==> r@ == c@,
        tag@.len() > 0 ==> r@ == filter_spec(c@, lower_of(tag@)),
{
    let mut quotes: Vec<Quote> = Vec::new();
    if tag.as_str().is_empty() {
        let mut i: usize = 0;
        while i < c.quotes.len()
            invariant
                i <= c.quotes@.len(),
                quotes@.len() == i as int,
                quotes.deep_view() == c@.subrange(0, i as int),
            decreases c.quotes@.len() - i,
        {
            let q = c.quotes[i].clone();
            quotes.push(q);
            proof {
                assert(quotes@[i as int]@ == c@[i as int]);
                assert(quotes.deep_view() =~= c@.subrange(0, i as int).push(quotes@[i as int]@));
                assert(c@.subrange(0, i as int).push(c@[i as int]) =~= c@.subrange(0, i + 1));
            }
            i = i + 1;
        }
        proof {
            assert(c@.subrange(0, c.quotes@.len() as int) =~= c@);
        }
        AllQuotes { quotes }
    } else {
        let ltag = lowercase(tag.as_str());
        let mut i: usize = 0;
        while i < c.quotes.len()
            invariant
                i <= c.quotes@.len(),
                ltag@ == lower_of(tag@),
                quotes.deep_view() == filter_spec(c@.subrange(0, i as int), lower_of(tag@)),
            decreases c.quotes@.len() - i,
        {
            let ghost lt = lower_of(tag@);
            let ghost pre = c@.subrange(0, i as int);
            let keep = quote_has_tag(&c.quotes[i], &ltag);
            if keep {
                let q = c.quotes[i].clone();
                quotes.push(q);
                proof {
                    assert(quotes.deep_view() =~= filter_spec(pre, lt) + seq![c@[i as int]]);
                }
            }
            proof {
                let post = c@.subrange(0, i + 1);
                assert(post.drop_last() =~= pre);
                assert(post.last() == c@[i as int]);
                if !keep {
                    assert(quotes.deep_view() =~= filter_spec(pre, lt) + Seq::<QuoteView>::empty());
                }
                assert(quotes.deep_view() == filter_spec(post, lt));
            }
            i = i + 1;
        }
        proof {
            assert(c@.subrange(0, c.quotes@.len() as int) =~= c@);
        }
        AllQuotes { quotes }
    }
}

/// Every quote that the filter keeps carries the tag.
pub proof fn lemma_filter_matches(qs: Seq<QuoteView>, lt: Seq<char>)
    ensures
        forall|k: int|
            0 <= k < filter_spec(qs, lt).len() ==> has_tag(#[trigger] filter_spec(qs, lt)[k], lt),
    decreases qs.len(),
{
    if qs.len() > 0 {
        lemma_filter_matches(qs.drop_last(), lt);
        let rest = filter_spec(qs.drop_last(), lt);
        let whole = filter_spec(qs, lt);
        assert forall|k: int| 0 <= k < whole.len() implies has_tag(whole[k], lt) by {
            if k < rest.len() {
                assert(whole[k] == rest[k]);
            } else {
                assert(has_tag(qs.last(), lt));
                assert(whole[k] == qs.last());
            }
        }
    }
}

/// A quote that carries the tag keeps its multiplicity through the filter —
/// in particular it is not duplicated, however many of its tags match — and
/// a quote that does not carry it is dropped entirely.
pub proof fn lemma_filter_count(qs: Seq<QuoteView>, lt: Seq<char>, q: QuoteView)
    ensures
        has_tag(q, lt) ==> filter_spec(qs, lt).to_multiset().count(q) == qs.to_multiset().count(q),
        !has_tag(q, lt) ==> filter_spec(qs, lt).to_multiset().count(q) == 0,
    decreases qs.len(),
{
    broadcast use vstd::seq_lib::group_to_multiset_ensures;
    broadcast use vstd::multiset::group_multiset_axioms;

    if qs.len() == 0 {
        assert(qs.to_multiset().len() == 0);
        assert(filter_spec(qs, lt).to_multiset().len() == 0);
    } else {
        let rest = qs.drop_last();
        let last = qs.last();
        lemma_filter_count(rest, lt, q);
        assert(qs =~= rest.push(last));
        assert(qs.to_multiset() =~= rest.to_multiset().insert(last));
        if has_tag(last, lt) {
            assert(filter_spec(qs, lt) =~= filter_spec(rest, lt).push(last));
            assert(filter_spec(qs, lt).to_multiset() =~= filter_spec(rest, lt).to_multiset().insert(
                last,
            ));
        } else {
            assert(filter_spec(qs, lt) =~= filter_spec(rest, lt));
        }
    }
}

/// Filtering respects the collection's order: the filter of a concatenation
/// is the concatenation of the filters, so the quotes kept from a prefix
/// stand, in order, before those kept from the rest.
pub proof fn lemma_filter_append(a: Seq<QuoteView>, b: Seq<QuoteView>, lt: Seq<char>)
    ensures
        filter_spec(a + b, lt) == filter_spec(a, lt) + filter_spec(b, lt),
    decreases b.len(),
{
    if b.len() == 0 {
        assert(a + b =~= a);
        assert(filter_spec(a, lt) + filter_spec(b, lt) =~= filter_spec(a, lt));
    } else {
        lemma_filter_append(a, b.drop_last(), lt);
        assert((a + b).drop_last() =~= a + b.drop_last());
        assert((a + b).last() == b.last());
        let tail = if has_tag(b.last(), lt) {
            seq![b.last()]
        } else {
            Seq::<QuoteView>::empty()
        };
        assert(filter_spec(a + b, lt) == filter_spec(a, lt) + filter_spec(b.drop_last(), lt)
            + tail);
        assert(filter_spec(a, lt) + filter_spec(b.drop_last(), lt) + tail =~= filter_spec(a, lt)
            + (filter_spec(b.drop_last(), lt) + tail));
    }
}

/// A tag that no quote of the collection carries filters everything out;
/// an unmatched tag is an empty result, never a failure.
pub proof fn lemma_filter_unmatched(qs: Seq<QuoteView>, lt: Seq<char>)
    requires
        forall|k: int| 0 <= k < qs.len() ==> !has_tag(#[trigger] qs[k], lt),
    ensures
        filter_spec(qs, lt).len() == 0,
    decreases qs.len(),
{
    if qs.len() > 0 {
        assert(forall|k: int| 0 <= k < qs.drop_last().len() ==> !has_tag(
            #[trigger] qs.drop_last()[k],
            lt,
        ));
        lemma_filter_unmatched(qs.drop_last(), lt);
        assert(!has_tag(qs.last(), lt));
    }
}

} // verus!
