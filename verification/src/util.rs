//! Small general-purpose sequence lemmas used by the move generator proofs.

use vstd::prelude::*;

verus! {

/// Membership in a sequence after a push: the new element joins, nothing
/// else changes.
pub broadcast proof fn lemma_push_contains<T>(s: Seq<T>, v: T, x: T)
    ensures
        #[trigger] s.push(v).contains(x) <==> (s.contains(x) || x == v),
{
    if s.contains(x) {
        let i = choose|i: int| 0 <= i < s.len() && s[i] == x;
        assert(s.push(v)[i] == x);
    }
    if x == v {
        assert(s.push(v)[s.len() as int] == x);
    }
    if s.push(v).contains(x) {
        let i = choose|i: int| 0 <= i < s.push(v).len() && s.push(v)[i] == x;
        if i < s.len() {
            assert(s[i] == x);
        }
    }
}

/// Membership on either side of a concatenation carries over to the whole.
pub proof fn lemma_contains_in_concat<T>(s1: Seq<T>, s2: Seq<T>, x: T)
    requires
        s1.contains(x) || s2.contains(x),
    ensures
        (s1 + s2).contains(x),
{
    if s1.contains(x) {
        let i = choose|i: int| 0 <= i < s1.len() && s1[i] == x;
        assert((s1 + s2)[i] == x);
    } else {
        let i = choose|i: int| 0 <= i < s2.len() && s2[i] == x;
        assert((s1 + s2)[s1.len() + i] == x);
    }
}

/// An element of a sequence stays an element of any extension that keeps the
/// original entries in place.
pub proof fn lemma_contains_in_extension<T>(s1: Seq<T>, s2: Seq<T>, x: T)
    requires
        s1.len() <= s2.len(),
        forall|i: int| 0 <= i < s1.len() ==> s1[i] == s2[i],
        s1.contains(x),
    ensures
        s2.contains(x),
{
    let i = choose|i: int| 0 <= i < s1.len() && s1[i] == x;
    assert(s2[i] == x);
}

} // verus!
