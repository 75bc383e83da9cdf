//! The first place where a value stands in a sequence.
use vstd::prelude::*;

verus! {

/// The index of the first `x` in `s`, or the length of `s` where it holds none.
pub open spec fn first_index<T>(s: Seq<T>, x: T) -> nat
    decreases s.len(),
{
    if s.len() == 0 || s[0] == x {
        0
    } else {
        1 + first_index(s.drop_first(), x)
    }
}

/// [`first_index`] is within the sequence, no `x` stands before it, and an `x`
/// stands at it unless it is the length.
pub proof fn lemma_first_index<T>(s: Seq<T>, x: T)
    ensures
        first_index(s, x) <= s.len(),
        forall|i: int| 0 <= i < first_index(s, x) ==> s[i] != x,
        first_index(s, x) < s.len() ==> s[first_index(s, x) as int] == x,
    decreases s.len(),
{
    if s.len() == 0 || s[0] == x {
    } else {
        let rest = s.drop_first();
        lemma_first_index(rest, x);
        assert forall|i: int| 0 <= i < first_index(s, x) implies s[i] != x by {
            if i > 0 {
                assert(s[i] == rest[i - 1]);
            }
        }
        if first_index(s, x) < s.len() {
            assert(s[first_index(s, x) as int] == rest[first_index(rest, x) as int]);
        }
    }
}

/// An index with no `x` before it, and with an `x` at it unless it is the
/// length, is [`first_index`].
pub proof fn lemma_first_index_is<T>(s: Seq<T>, x: T, k: int)
    requires
        0 <= k <= s.len(),
        forall|i: int| 0 <= i < k ==> s[i] != x,
        k < s.len() ==> s[k] == x,
    ensures
        first_index(s, x) == k,
    decreases s.len(),
{
    if s.len() == 0 || s[0] == x {
    } else {
        let rest = s.drop_first();
        assert forall|i: int| 0 <= i < k - 1 implies rest[i] != x by {
            assert(rest[i] == s[i + 1]);
        }
        if k < s.len() {
            assert(rest[k - 1] == s[k]);
        }
        lemma_first_index_is(rest, x, k - 1);
    }
}

/// A sequence holds `x` exactly where [`first_index`] is an index of it.
pub proof fn lemma_first_index_contains<T>(s: Seq<T>, x: T)
    ensures
        s.contains(x) <==> first_index(s, x) < s.len(),
{
    lemma_first_index(s, x);
    if first_index(s, x) < s.len() {
        assert(s[first_index(s, x) as int] == x);
    }
}

/// Where `a` holds no `x`, the first `x` of `a + b` is the first `x` of `b`.
pub proof fn lemma_first_index_after<T>(a: Seq<T>, b: Seq<T>, x: T)
    requires
        forall|i: int| 0 <= i < a.len() ==> a[i] != x,
    ensures
        first_index(a + b, x) == a.len() + first_index(b, x),
{
    let k = a.len() + first_index(b, x);
    lemma_first_index(b, x);
    assert forall|i: int| 0 <= i < k implies (a + b)[i] != x by {
        if i >= a.len() {
            assert((a + b)[i] == b[i - a.len()]);
        }
    }
    if k < (a + b).len() {
        assert((a + b)[k as int] == b[first_index(b, x) as int]);
    }
    lemma_first_index_is(a + b, x, k as int);
}

/// The index of the first `x` in `bytes` at or after `from`, or the length of
/// `bytes` where none follows.
pub(crate) fn find_byte(bytes: &[u8], from: usize, x: u8) -> (at: usize)
    requires
        from <= bytes.len(),
    ensures
        from <= at <= bytes.len(),
        at == from + first_index(bytes@.skip(from as int), x),
{
    let mut at: usize = from;
    while at < bytes.len() && bytes[at] != x
        invariant
            from <= at <= bytes.len(),
            forall|i: int| from <= i < at ==> bytes@[i] != x,
        decreases bytes.len() - at,
    {
        at += 1;
    }
    proof {
        lemma_first_index_is(bytes@.skip(from as int), x, at - from);
    }
    at
}

/// The index of the first `x` in `text` at or after `from`, or the length of
/// `text` where none follows.
pub(crate) fn find_char(text: &[char], from: usize, x: char) -> (at: usize)
    requires
        from <= text.len(),
    ensures
        from <= at <= text.len(),
        at == from + first_index(text@.skip(from as int), x),
{
    let mut at: usize = from;
    while at < text.len() && text[at] != x
        invariant
            from <= at <= text.len(),
            forall|i: int| from <= i < at ==> text@[i] != x,
        decreases text.len() - at,
    {
        at += 1;
    }
    proof {
        lemma_first_index_is(text@.skip(from as int), x, at - from);
    }
    at
}

} // verus!
