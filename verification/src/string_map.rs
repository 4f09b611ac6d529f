//! Ordered string maps: keys are unique, pairs keep the order of first insertion,
//! and inserting an existing key replaces its value in place.
use crate::seqs::{first_index, insert_entry, key_is, lemma_first_index_at, lemma_first_index_none};
use crate::text::{chars_eq, chars_of};
use vstd::prelude::*;

verus! {

/// The pairs of a string map as character sequences.
pub open spec fn pairs_view(v: Seq<(String, String)>) -> Seq<(Seq<char>, Seq<char>)> {
    v.map_values(|e: (String, String)| (e.0@, e.1@))
}

/// Position of the pair with key `k`, compared by characters.
pub fn find_key(m: &Vec<(String, String)>, k: &[char]) -> (r: Option<usize>)
    ensures
        r matches Some(i) ==> i < m@.len(),
        r is Some <==> first_index(pairs_view(m@), key_is::<Seq<char>>(k@)) is Some,
        r matches Some(i) ==> first_index(pairs_view(m@), key_is::<Seq<char>>(k@)) == Some(i as int),
{
    let ghost s = pairs_view(m@);
    let mut i: usize = 0;
    while i < m.len()
        invariant
            i <= m.len(),
            s == pairs_view(m@),
            forall|j: int| 0 <= j < i ==> !key_is::<Seq<char>>(k@)(s[j]),
        decreases m.len() - i,
    {
        let kc = chars_of(m[i].0.as_str());
        if chars_eq(kc.as_slice(), k) {
            proof {
                lemma_first_index_at(s, key_is::<Seq<char>>(k@), i as int);
            }
            return Some(i);
        }
        i = i + 1;
    }
    proof {
        lemma_first_index_none(s, key_is::<Seq<char>>(k@));
    }
    None
}

/// Inserts `v` under `k`: replaces the value of an existing `k`, else appends the pair.
pub fn map_insert(m: &mut Vec<(String, String)>, k: String, v: String)
    ensures
        pairs_view(final(m)@) == insert_entry(pairs_view(old(m)@), k@, v@),
{
    let kc = chars_of(k.as_str());
    match find_key(m, kc.as_slice()) {
        Some(i) => {
            m.set(i, (k, v));
        },
        None => {
            m.push((k, v));
        },
    }
    assert(pairs_view(m@) =~= insert_entry(pairs_view(old(m)@), k@, v@));
}

/// The value stored under `k`.
pub fn map_get<'a>(m: &'a Vec<(String, String)>, k: &str) -> (r: Option<&'a String>)
    ensures
        r matches Some(v) ==> crate::seqs::lookup(pairs_view(m@), k@) == Some(v@),
        r is None ==> crate::seqs::lookup(pairs_view(m@), k@) is None,
{
    let kc = chars_of(k);
    match find_key(m, kc.as_slice()) {
        Some(i) => Some(&m[i].1),
        None => None,
    }
}

/// The map after inserting the pairs of `entries` one after the other into `m`.
pub open spec fn insert_all(
    m: Seq<(Seq<char>, Seq<char>)>,
    entries: Seq<(Seq<char>, Seq<char>)>,
) -> Seq<(Seq<char>, Seq<char>)>
    decreases entries.len(),
{
    if entries.len() == 0 {
        m
    } else {
        let prev = insert_all(m, entries.drop_last());
        insert_entry(prev, entries.last().0, entries.last().1)
    }
}

/// Inserting pairs into a map that names each key once gives such a map.
pub proof fn lemma_insert_all_distinct(m: Seq<(Seq<char>, Seq<char>)>, entries: Seq<(Seq<char>, Seq<char>)>)
    requires
        crate::seqs::distinct_keys(m),
    ensures
        crate::seqs::distinct_keys(insert_all(m, entries)),
    decreases entries.len(),
{
    if entries.len() > 0 {
        lemma_insert_all_distinct(m, entries.drop_last());
        crate::seqs::lemma_insert_entry_distinct(insert_all(m, entries.drop_last()), entries.last().0, entries.last().1);
    }
}

} // verus!
