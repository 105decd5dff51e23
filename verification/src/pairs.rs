//! Lists of `(key, value)` texts used as small maps: a key is looked up from
//! the front, and setting a key replaces its value in place or appends.

use vstd::prelude::*;
use crate::text::str_eq;

verus! {

/// One `(key, value)` pair, as a value.
pub type PairModel = (Seq<char>, Seq<char>);

/// The pairs a list stands for.
pub open spec fn pairs_model(pairs: Seq<(String, String)>) -> Seq<PairModel> {
    Seq::new(pairs.len(), |i: int| (pairs[i].0@, pairs[i].1@))
}

/// The index of the first pair with the given key, or the number of pairs if
/// there is none.
pub open spec fn pair_index(pairs: Seq<PairModel>, key: Seq<char>) -> int
    decreases pairs.len(),
{
    if pairs.len() == 0 || pairs[0].0 == key {
        0
    } else {
        1 + pair_index(pairs.drop_first(), key)
    }
}

/// The value under `key`, if the key is there.
pub open spec fn pair_value(pairs: Seq<PairModel>, key: Seq<char>) -> Option<Seq<char>> {
    let i = pair_index(pairs, key);
    if 0 <= i < pairs.len() {
        Some(pairs[i].1)
    } else {
        None
    }
}

/// The pairs after `key` has been given `value`: a pair with that key keeps
/// its place and gets the new value; a new key goes last.
pub open spec fn pairs_with(pairs: Seq<PairModel>, key: Seq<char>, value: Seq<char>) -> Seq<
    PairModel,
> {
    let i = pair_index(pairs, key);
    if 0 <= i < pairs.len() {
        pairs.update(i, (key, value))
    } else {
        pairs.push((key, value))
    }
}

/// [`pair_index`] is the one index that holds the key while none before it
/// does.
pub proof fn lemma_pair_index(pairs: Seq<PairModel>, key: Seq<char>, k: int)
    requires
        0 <= k <= pairs.len(),
        forall|j: int| 0 <= j < k ==> (#[trigger] pairs[j]).0 != key,
        k < pairs.len() ==> pairs[k].0 == key,
    ensures
        pair_index(pairs, key) == k,
    decreases k,
{
    if k > 0 {
        let tail = pairs.drop_first();
        assert(pairs[0].0 != key);
        assert forall|j: int| 0 <= j < k - 1 implies (#[trigger] tail[j]).0 != key by {
            assert(tail[j] == pairs[j + 1]);
        }
        lemma_pair_index(tail, key, k - 1);
    }
}

/// Finds the first pair with the given key.
pub fn find_pair(pairs: &Vec<(String, String)>, key: &str) -> (r: Option<usize>)
    ensures
        match r {
            Some(i) => i < pairs.len() && i == pair_index(pairs_model(pairs@), key@),
            None => pair_index(pairs_model(pairs@), key@) == pairs.len(),
        },
{
    let ghost model = pairs_model(pairs@);
    let mut i: usize = 0;
    while i < pairs.len()
        invariant
            0 <= i <= pairs.len(),
            model == pairs_model(pairs@),
            forall|j: int| 0 <= j < i ==> (#[trigger] model[j]).0 != key@,
        decreases pairs.len() - i,
    {
        if str_eq(pairs[i].0.as_str(), key) {
            proof {
                lemma_pair_index(model, key@, i as int);
            }
            return Some(i);
        }
        i = i + 1;
    }
    proof {
        lemma_pair_index(model, key@, i as int);
    }
    None
}

/// Looks up the value under a key.
pub fn get_pair<'a>(pairs: &'a Vec<(String, String)>, key: &str) -> (r: Option<&'a String>)
    ensures
        match r {
            Some(v) => pair_value(pairs_model(pairs@), key@) == Some(v@),
            None => pair_value(pairs_model(pairs@), key@) is None,
        },
{
    match find_pair(pairs, key) {
        Some(i) => Some(&pairs[i].1),
        None => None,
    }
}

/// A copy of a list of pairs.
pub fn clone_pairs(pairs: &Vec<(String, String)>) -> (r: Vec<(String, String)>)
    ensures
        pairs_model(r@) == pairs_model(pairs@),
{
    let mut out: Vec<(String, String)> = Vec::new();
    let mut i: usize = 0;
    while i < pairs.len()
        invariant
            0 <= i <= pairs.len(),
            out@.len() == i,
            forall|j: int| 0 <= j < i ==> (#[trigger] out@[j]).0@ == pairs@[j].0@,
            forall|j: int| 0 <= j < i ==> (#[trigger] out@[j]).1@ == pairs@[j].1@,
        decreases pairs.len() - i,
    {
        out.push((pairs[i].0.clone(), pairs[i].1.clone()));
        i = i + 1;
    }
    assert(pairs_model(out@) =~= pairs_model(pairs@));
    out
}

/// Gives `key` the value `value`, replacing an earlier value in place.
pub fn set_pair(pairs: &mut Vec<(String, String)>, key: String, value: String)
    ensures
        pairs_model(final(pairs)@) == pairs_with(pairs_model(old(pairs)@), key@, value@),
{
    let ghost before = pairs_model(pairs@);
    match find_pair(pairs, key.as_str()) {
        Some(i) => {
            pairs[i] = (key, value);
            assert(pairs_model(pairs@) =~= before.update(i as int, (key@, value@)));
        },
        None => {
            pairs.push((key, value));
            assert(pairs_model(pairs@) =~= before.push((key@, value@)));
        },
    }
}

} // verus!
