//! Facts about sequences that several modules use.

use vstd::prelude::*;

verus! {

/// The index of the first element of `s` that satisfies `p`, or `s.len()`
/// when there is none.
pub open spec fn first_index<A>(s: Seq<A>, p: spec_fn(A) -> bool) -> int
    decreases s.len(),
{
    if s.len() == 0 {
        0
    } else if p(s[0]) {
        0
    } else {
        1 + first_index(s.drop_first(), p)
    }
}

/// `first_index` is the `i` before which no element satisfies `p` and at
/// which one does (or the end).
pub proof fn lemma_first_index<A>(s: Seq<A>, p: spec_fn(A) -> bool, i: int)
    requires
        0 <= i <= s.len(),
        forall|j: int| 0 <= j < i ==> !p(#[trigger] s[j]),
        i == s.len() || p(s[i]),
    ensures
        first_index(s, p) == i,
    decreases i,
{
    if i > 0 {
        assert forall|j: int| 0 <= j < i - 1 implies !p(#[trigger] s.drop_first()[j]) by {
            assert(s.drop_first()[j] == s[j + 1]);
        }
        if i < s.len() {
            assert(s.drop_first()[i - 1] == s[i]);
        }
        assert(!p(s[0]));
        lemma_first_index(s.drop_first(), p, i - 1);
    }
}

/// `first_index` is within bounds, and no element before it satisfies `p`.
pub proof fn lemma_first_index_bounds<A>(s: Seq<A>, p: spec_fn(A) -> bool)
    ensures
        0 <= first_index(s, p) <= s.len(),
        forall|j: int| 0 <= j < first_index(s, p) ==> !p(#[trigger] s[j]),
        first_index(s, p) < s.len() ==> p(s[first_index(s, p)]),
    decreases s.len(),
{
    if s.len() > 0 && !p(s[0]) {
        lemma_first_index_bounds(s.drop_first(), p);
        assert forall|j: int| 0 <= j < first_index(s, p) implies !p(#[trigger] s[j]) by {
            if j > 0 {
                assert(s[j] == s.drop_first()[j - 1]);
            }
        }
        if first_index(s, p) < s.len() {
            assert(s[first_index(s, p)] == s.drop_first()[first_index(s, p) - 1]);
        }
    }
}

} // verus!

verus! {

/// Two sequences that a pair of predicates holds of at the same places
/// have their first match at the same place.
pub proof fn lemma_first_index_same<A, B>(s: Seq<A>, p: spec_fn(A) -> bool, t: Seq<B>, q: spec_fn(B) -> bool)
    requires
        s.len() == t.len(),
        forall|j: int| 0 <= j < s.len() ==> p(#[trigger] s[j]) == q(t[j]),
    ensures
        first_index(s, p) == first_index(t, q),
{
    lemma_first_index_bounds(s, p);
    let i = first_index(s, p);
    assert forall|j: int| 0 <= j < i implies !q(#[trigger] t[j]) by {
        assert(!p(s[j]));
    }
    lemma_first_index(t, q, i);
}

/// What the first `i + 1` elements contain is what the first `i` contain and
/// the element at `i`.
pub proof fn lemma_take_contains<A>(s: Seq<A>, i: int)
    requires
        0 <= i < s.len(),
    ensures
        forall|c: A| #[trigger] s.take(i + 1).contains(c) <==> (s.take(i).contains(c) || c == s[i]),
{
    assert forall|c: A| #[trigger] s.take(i + 1).contains(c) <==> (s.take(i).contains(c) || c == s[i]) by {
        if s.take(i + 1).contains(c) {
            let k = choose|k: int| 0 <= k < i + 1 && #[trigger] s.take(i + 1)[k] == c;
            if k < i {
                assert(s.take(i)[k] == c);
            }
        }
        if s.take(i).contains(c) {
            let k = choose|k: int| 0 <= k < i && #[trigger] s.take(i)[k] == c;
            assert(s.take(i + 1)[k] == c);
        }
        if c == s[i] {
            assert(s.take(i + 1)[i] == c);
        }
    }
}

/// A copy of `b` in a vector of its own.
pub fn copy_bytes(b: &[u8]) -> (r: Vec<u8>)
    ensures
        r@ == b@,
{
    let mut r: Vec<u8> = Vec::new();
    for i in 0..b.len()
        invariant
            r@ == b@.take(i as int),
    {
        r.push(b[i]);
        assert(b@.take(i + 1) == b@.take(i as int).push(b@[i as int]));
    }
    assert(b@.take(b@.len() as int) == b@);
    r
}

/// A copy of `b[start..end]`.
pub fn copy_range(b: &[u8], start: usize, end: usize) -> (r: Vec<u8>)
    requires
        start <= end <= b@.len(),
    ensures
        r@ == b@.subrange(start as int, end as int),
{
    let mut r: Vec<u8> = Vec::new();
    for i in start..end
        invariant
            start <= end <= b@.len(),
            r@ == b@.subrange(start as int, i as int),
    {
        r.push(b[i]);
        assert(b@.subrange(start as int, i + 1) == b@.subrange(start as int, i as int).push(b@[i as int]));
    }
    r
}

/// Whether `a` and `b` hold the same bytes.
pub fn bytes_equal(a: &[u8], b: &[u8]) -> (r: bool)
    ensures
        r == (a@ == b@),
{
    if a.len() != b.len() {
        return false;
    }
    let mut i: usize = 0;
    while i < a.len()
        invariant
            a@.len() == b@.len(),
            i <= a@.len(),
            forall|j: int| 0 <= j < i ==> a@[j] == b@[j],
        decreases a@.len() - i,
    {
        if a[i] != b[i] {
            return false;
        }
        i = i + 1;
    }
    assert(a@ =~= b@);
    true
}

} // verus!
