//! The first and the last place of a value in a sequence.

use vstd::prelude::*;

verus! {

/// Whether `x` stands in `s` at index `i` and nowhere before it.
pub open spec fn is_first_at<T>(s: Seq<T>, x: T, i: int) -> bool {
    &&& 0 <= i < s.len()
    &&& s[i] == x
    &&& forall|j: int| 0 <= j < i ==> s[j] != x
}

/// The first index at which `x` stands in `s`, if it stands there at all.
pub open spec fn first_index<T>(s: Seq<T>, x: T) -> Option<int> {
    if exists|i: int| is_first_at(s, x, i) {
        Some(choose|i: int| is_first_at(s, x, i))
    } else {
        None
    }
}

pub proof fn lemma_first_index_found<T>(s: Seq<T>, x: T, i: int)
    requires
        is_first_at(s, x, i),
    ensures
        first_index(s, x) == Some(i),
{
    let k = choose|k: int| is_first_at(s, x, k);
    assert(is_first_at(s, x, k));
    if k < i {
        assert(s[k] != x);
    } else if i < k {
        assert(s[i] != x);
    }
}

pub proof fn lemma_first_index_missing<T>(s: Seq<T>, x: T)
    requires
        forall|j: int| 0 <= j < s.len() ==> s[j] != x,
    ensures
        first_index(s, x) is None,
{
}

pub proof fn lemma_first_index_is_first<T>(s: Seq<T>, x: T)
    ensures
        match first_index(s, x) {
            Some(i) => is_first_at(s, x, i),
            None => forall|j: int| 0 <= j < s.len() ==> s[j] != x,
        },
{
    if exists|i: int| is_first_at(s, x, i) {
    } else {
        assert forall|j: int| 0 <= j < s.len() implies s[j] != x by {
            if s[j] == x {
                lemma_some_first(s, x, j);
            }
        }
    }
}

pub proof fn lemma_some_first<T>(s: Seq<T>, x: T, j: int)
    requires
        0 <= j < s.len(),
        s[j] == x,
    ensures
        exists|i: int| is_first_at(s, x, i),
        first_index(s, x) is Some,
    decreases j,
{
    if exists|k: int| 0 <= k < j && s[k] == x {
        let k = choose|k: int| 0 <= k < j && s[k] == x;
        lemma_some_first(s, x, k);
    } else {
        assert(is_first_at(s, x, j));
    }
}

/// Whether `x` stands in `s` at index `i` and nowhere after it.
pub open spec fn is_last_at<T>(s: Seq<T>, x: T, i: int) -> bool {
    &&& 0 <= i < s.len()
    &&& s[i] == x
    &&& forall|j: int| i < j < s.len() ==> s[j] != x
}

/// The last index at which `x` stands in `s`, if it stands there at all.
pub open spec fn last_index<T>(s: Seq<T>, x: T) -> Option<int> {
    if exists|i: int| is_last_at(s, x, i) {
        Some(choose|i: int| is_last_at(s, x, i))
    } else {
        None
    }
}

pub proof fn lemma_last_index_found<T>(s: Seq<T>, x: T, i: int)
    requires
        is_last_at(s, x, i),
    ensures
        last_index(s, x) == Some(i),
{
    let k = choose|k: int| is_last_at(s, x, k);
    assert(is_last_at(s, x, k));
    if k < i {
        assert(s[i] != x);
    } else if i < k {
        assert(s[k] != x);
    }
}

pub proof fn lemma_last_index_missing<T>(s: Seq<T>, x: T)
    requires
        forall|j: int| 0 <= j < s.len() ==> s[j] != x,
    ensures
        last_index(s, x) is None,
{
}

} // verus!
