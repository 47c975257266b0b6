//! Searching in sequences.

use vstd::prelude::*;

verus! {

/// The place of the first element with the property `p`; the length of the sequence where none
/// has it.
pub open spec fn place<T>(s: Seq<T>, p: spec_fn(T) -> bool) -> int
    decreases s.len(),
{
    if s.len() == 0 || p(s.first()) {
        0
    } else {
        1 + place(s.drop_first(), p)
    }
}

/// Whether some element has the property `p`.
pub open spec fn any<T>(s: Seq<T>, p: spec_fn(T) -> bool) -> bool {
    exists|i: int| 0 <= i < s.len() && p(#[trigger] s[i])
}

/// The place is the first with the property.
pub proof fn lemma_place<T>(s: Seq<T>, p: spec_fn(T) -> bool)
    ensures
        0 <= place(s, p) <= s.len(),
        forall|i: int| 0 <= i < place(s, p) ==> !p(#[trigger] s[i]),
        place(s, p) < s.len() ==> p(s[place(s, p)]),
        any(s, p) <==> place(s, p) < s.len(),
    decreases s.len(),
{
    if s.len() > 0 && !p(s.first()) {
        let rest = s.drop_first();
        lemma_place(rest, p);
        assert forall|i: int| 0 <= i < place(s, p) implies !p(#[trigger] s[i]) by {
            if i > 0 {
                assert(rest[i - 1] == s[i]);
            }
        }
    }
    if any(s, p) {
        let i = choose|i: int| 0 <= i < s.len() && p(#[trigger] s[i]);
        assert(i >= place(s, p));
    }
}

/// What is first with the property is the place.
pub proof fn lemma_place_is<T>(s: Seq<T>, p: spec_fn(T) -> bool, k: int)
    requires
        0 <= k <= s.len(),
        forall|i: int| 0 <= i < k ==> !p(#[trigger] s[i]),
        k < s.len() ==> p(s[k]),
    ensures
        place(s, p) == k,
{
    lemma_place(s, p);
    let n = place(s, p);
    if n < k {
        assert(!p(s[n]));
    }
}

/// Whether `k` is the only place with a property.
pub open spec fn is_only<T>(s: Seq<T>, p: spec_fn(T) -> bool, k: int) -> bool {
    &&& 0 <= k < s.len()
    &&& p(s[k])
    &&& forall|i: int| 0 <= i < s.len() && i != k ==> !p(#[trigger] s[i])
}

/// The only place with a property; none where no place or more than one has it.
pub open spec fn only<T>(s: Seq<T>, p: spec_fn(T) -> bool) -> Option<int> {
    if exists|k: int| is_only(s, p, k) {
        Some(choose|k: int| is_only(s, p, k))
    } else {
        None
    }
}

/// What is the only place with the property is found as such.
pub proof fn lemma_only<T>(s: Seq<T>, p: spec_fn(T) -> bool, k: int)
    requires
        is_only(s, p, k),
    ensures
        only(s, p) == Some(k),
{
    let m = choose|m: int| is_only(s, p, m);
    if m != k {
        assert(!p(s[m]));
    }
}

/// Where two places have the property, none is the only one.
pub proof fn lemma_not_only<T>(s: Seq<T>, p: spec_fn(T) -> bool, i: int, j: int)
    requires
        0 <= i < j < s.len(),
        p(s[i]),
        p(s[j]),
    ensures
        only(s, p) is None,
{
    assert forall|k: int| !is_only(s, p, k) by {
        if k != i {
            assert(p(s[i]));
        }
    }
}

} // verus!
