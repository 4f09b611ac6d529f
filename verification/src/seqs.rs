//! Small spec helpers on sequences: first matching position and keyed lookups.
use vstd::prelude::*;

verus! {

/// The position of the first element of `s` that satisfies `p`, if any.
pub open spec fn first_index<A>(s: Seq<A>, p: spec_fn(A) -> bool) -> Option<int>
    decreases s.len(),
{
    if s.len() == 0 {
        None
    } else {
        match first_index(s.drop_last(), p) {
            Some(i) => Some(i),
            None => if p(s.last()) {
                Some(s.len() - 1)
            } else {
                None
            },
        }
    }
}

/// The predicate "the pair's key is `k`".
pub open spec fn key_is<V>(k: Seq<char>) -> spec_fn((Seq<char>, V)) -> bool {
    |e: (Seq<char>, V)| e.0 == k
}

/// The value stored under key `k` (the first pair with that key), if any.
pub open spec fn lookup<V>(s: Seq<(Seq<char>, V)>, k: Seq<char>) -> Option<V> {
    match first_index(s, key_is::<V>(k)) {
        Some(i) => Some(s[i].1),
        None => None,
    }
}

/// `true` when no two elements of `s` are equal.
pub open spec fn distinct<A>(s: Seq<A>) -> bool {
    forall|i: int, j: int| 0 <= i < s.len() && 0 <= j < s.len() && i != j ==> s[i] != s[j]
}

/// `true` when no two pairs of `s` share a key.
pub open spec fn distinct_keys<V>(s: Seq<(Seq<char>, V)>) -> bool {
    forall|i: int, j: int|
        0 <= i < s.len() && 0 <= j < s.len() && i != j ==> #[trigger] s[i].0 != #[trigger] s[j].0
}

/// `first_index` is `Some(i)` exactly when `i` is the first position that satisfies `p`.
pub proof fn lemma_first_index<A>(s: Seq<A>, p: spec_fn(A) -> bool)
    ensures
        match first_index(s, p) {
            Some(i) => 0 <= i < s.len() && p(s[i]) && forall|j: int| 0 <= j < i ==> !p(s[j]),
            None => forall|j: int| 0 <= j < s.len() ==> !p(s[j]),
        },
    decreases s.len(),
{
    if s.len() > 0 {
        let t = s.drop_last();
        lemma_first_index(t, p);
        assert forall|j: int| 0 <= j < t.len() implies t[j] == s[j] by {}
    }
}

/// The position `i` that satisfies `p` and that no earlier position satisfies is `first_index`.
pub proof fn lemma_first_index_at<A>(s: Seq<A>, p: spec_fn(A) -> bool, i: int)
    requires
        0 <= i < s.len(),
        p(s[i]),
        forall|j: int| 0 <= j < i ==> !p(s[j]),
    ensures
        first_index(s, p) == Some(i),
{
    lemma_first_index(s, p);
    match first_index(s, p) {
        Some(k) => {
            if k < i {
                assert(!p(s[k]));
            } else if k > i {
                assert(!p(s[i]));
            }
        },
        None => {
            assert(!p(s[i]));
        },
    }
}

/// When no position satisfies `p`, `first_index` is `None`.
pub proof fn lemma_first_index_none<A>(s: Seq<A>, p: spec_fn(A) -> bool)
    requires
        forall|j: int| 0 <= j < s.len() ==> !p(s[j]),
    ensures
        first_index(s, p) is None,
{
    lemma_first_index(s, p);
}

/// `s` with the value under `k` replaced, or `(k, v)` appended when `k` is absent.
pub open spec fn insert_entry<V>(s: Seq<(Seq<char>, V)>, k: Seq<char>, v: V) -> Seq<(Seq<char>, V)> {
    match first_index(s, key_is::<V>(k)) {
        Some(i) => s.update(i, (k, v)),
        None => s.push((k, v)),
    }
}

/// `s` without the pair whose key is `k`.
pub open spec fn remove_entry<V>(s: Seq<(Seq<char>, V)>, k: Seq<char>) -> Seq<(Seq<char>, V)> {
    match first_index(s, key_is::<V>(k)) {
        Some(i) => s.remove(i),
        None => s,
    }
}

pub proof fn lemma_insert_entry_distinct<V>(s: Seq<(Seq<char>, V)>, k: Seq<char>, v: V)
    requires
        distinct_keys(s),
    ensures
        distinct_keys(insert_entry(s, k, v)),
{
    lemma_first_index(s, key_is::<V>(k));
    let r = insert_entry(s, k, v);
    match first_index(s, key_is::<V>(k)) {
        Some(i) => {
            assert forall|a: int, b: int|
                0 <= a < r.len() && 0 <= b < r.len() && a != b implies #[trigger] r[a].0
                != #[trigger] r[b].0 by {
                if a == i {
                    assert(s[i].0 == k);
                    assert(s[b].0 != s[i].0);
                } else if b == i {
                    assert(s[a].0 != s[i].0);
                } else {
                    assert(s[a].0 != s[b].0);
                }
            }
        },
        None => {
            assert forall|a: int, b: int|
                0 <= a < r.len() && 0 <= b < r.len() && a != b implies #[trigger] r[a].0
                != #[trigger] r[b].0 by {
                if a == s.len() {
                    assert(!key_is::<V>(k)(s[b]));
                } else if b == s.len() {
                    assert(!key_is::<V>(k)(s[a]));
                } else {
                    assert(s[a].0 != s[b].0);
                }
            }
        },
    }
}

pub proof fn lemma_remove_entry_distinct<V>(s: Seq<(Seq<char>, V)>, k: Seq<char>)
    requires
        distinct_keys(s),
    ensures
        distinct_keys(remove_entry(s, k)),
{
    lemma_first_index(s, key_is::<V>(k));
    let r = remove_entry(s, k);
    match first_index(s, key_is::<V>(k)) {
        Some(i) => {
            assert forall|a: int, b: int|
                0 <= a < r.len() && 0 <= b < r.len() && a != b implies #[trigger] r[a].0
                != #[trigger] r[b].0 by {
                let a2 = if a < i { a } else { a + 1 };
                let b2 = if b < i { b } else { b + 1 };
                assert(r[a] == s[a2]);
                assert(r[b] == s[b2]);
                assert(s[a2].0 != s[b2].0);
            }
        },
        None => {},
    }
}

/// What is stored under a key is found under it again.
pub proof fn lemma_lookup_insert<V>(s: Seq<(Seq<char>, V)>, k: Seq<char>, v: V)
    ensures
        lookup(insert_entry(s, k, v), k) == Some(v),
{
    lemma_first_index(s, key_is::<V>(k));
    let r = insert_entry(s, k, v);
    match first_index(s, key_is::<V>(k)) {
        Some(i) => {
            assert forall|j: int| 0 <= j < i implies !key_is::<V>(k)(r[j]) by {
                assert(r[j] == s[j]);
            }
            lemma_first_index_at(r, key_is::<V>(k), i);
        },
        None => {
            assert forall|j: int| 0 <= j < s.len() implies !key_is::<V>(k)(r[j]) by {
                assert(r[j] == s[j]);
            }
            lemma_first_index_at(r, key_is::<V>(k), s.len() as int);
        },
    }
}

} // verus!
