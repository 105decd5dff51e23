//! Sorting by a text key.

use std::cmp::Ordering;
use rayon::slice::ParallelSliceMut;
use vstd::prelude::*;
use crate::text::{compare_str, lemma_lex_total, lex_lt, TextOrder};

verus! {

/// How two texts stand to each other under [`lex_lt`], in the form that
/// sorting routines take.
pub fn text_ordering(a: &str, b: &str) -> (r: Ordering)
    ensures
        r == Ordering::Less <==> lex_lt(a@, b@),
        r == Ordering::Equal <==> a@ == b@,
        r == Ordering::Greater <==> lex_lt(b@, a@),
{
    proof {
        lemma_lex_total(a@, b@);
    }
    match compare_str(a, b) {
        TextOrder::Before => Ordering::Less,
        TextOrder::Same => Ordering::Equal,
        TextOrder::After => Ordering::Greater,
    }
}

/// Something that is sorted by a text.
pub trait SortKey {
    /// The text by which the value is sorted.
    spec fn key(&self) -> Seq<char>;

    /// The text by which the value is sorted.
    fn sort_key(&self) -> (r: &str)
        ensures
            r@ == self.key(),
    ;
}

/// No item comes after one with a greater key.
pub open spec fn sorted_by_key<T: SortKey>(items: Seq<T>) -> bool {
    forall|i: int, j: int|
        0 <= i < j < items.len() ==> !lex_lt((#[trigger] items[j]).key(), (#[trigger] items[i]).key())
}

/// `rayon`'s `par_sort_unstable_by`, with [`text_ordering`] on the keys as
/// the comparison: afterwards the items are the same as before, in ascending
/// order of key. Items with equal keys may come out in any order.
#[verifier::external_body]
pub(crate) fn par_sort_by_key<T: SortKey + Send>(items: &mut Vec<T>)
    ensures
        final(items)@.to_multiset() == old(items)@.to_multiset(),
        sorted_by_key(final(items)@),
{
    items.par_sort_unstable_by(|a, b| text_ordering(a.sort_key(), b.sort_key()));
}

} // verus!
