//! Byte-sequence helpers shared by the padding scheme and the modes of
//! operation: bytewise XOR, subrange copies, concatenation, and the
//! big-endian counter increment used by the counter mode.
use vstd::prelude::*;

verus! {

/// Bytewise XOR of `a` against the first `a.len()` bytes of `b`.
pub open spec fn xor_seq(a: Seq<u8>, b: Seq<u8>) -> Seq<u8> {
    Seq::new(a.len(), |i: int| a[i] ^ b[i])
}

/// XOR with the same keystream twice gives the original bytes back.
pub proof fn lemma_xor_cancel(a: Seq<u8>, b: Seq<u8>)
    ensures
        xor_seq(xor_seq(a, b), b) == a,
{
    assert forall|i: int| 0 <= i < a.len() implies xor_seq(xor_seq(a, b), b)[i] == a[i] by {
        let x = a[i];
        let y = b[i];
        assert((x ^ y) ^ y == x) by (bit_vector);
    }
    assert(xor_seq(xor_seq(a, b), b) =~= a);
}

/// XOR of `a` with the first `a.len()` bytes of `b`.
pub fn xor_bytes(a: &Vec<u8>, b: &Vec<u8>) -> (r: Vec<u8>)
    requires
        a@.len() <= b@.len(),
    ensures
        r@ == xor_seq(a@, b@),
        r@.len() == a@.len(),
{
    let mut r: Vec<u8> = Vec::new();
    let mut i: usize = 0;
    while i < a.len()
        invariant
            i <= a@.len() <= b@.len(),
            r@.len() == i,
            forall|j: int| 0 <= j < i ==> r@[j] == (a@[j] ^ b@[j]),
        decreases a@.len() - i,
    {
        r.push(a[i] ^ b[i]);
        i = i + 1;
    }
    assert(r@ =~= xor_seq(a@, b@));
    r
}

/// Copies the bytes of `v` between `start` and `end` into a fresh vector.
pub fn copy_range(v: &Vec<u8>, start: usize, end: usize) -> (r: Vec<u8>)
    requires
        start <= end <= v@.len(),
    ensures
        r@ == v@.subrange(start as int, end as int),
        r@.len() == end - start,
{
    let mut r: Vec<u8> = Vec::new();
    let mut i: usize = start;
    while i < end
        invariant
            start <= i <= end <= v@.len(),
            r@.len() == i - start,
            forall|j: int| 0 <= j < i - start ==> r@[j] == v@[start + j],
        decreases end - i,
    {
        r.push(v[i]);
        i = i + 1;
    }
    assert(r@ =~= v@.subrange(start as int, end as int));
    r
}

/// Appends all bytes of `b` to `a`.
pub fn append_bytes(a: &mut Vec<u8>, b: &Vec<u8>)
    ensures
        final(a)@ == old(a)@ + b@,
{
    let mut i: usize = 0;
    while i < b.len()
        invariant
            i <= b@.len(),
            a@ == old(a)@ + b@.subrange(0, i as int),
        decreases b@.len() - i,
    {
        a.push(b[i]);
        assert(a@ =~= old(a)@ + b@.subrange(0, i + 1 as int));
        i = i + 1;
    }
    assert(a@ =~= old(a)@ + b@);
}

/// A counter block incremented by one, read as a big-endian integer that
/// wraps around when every byte is at its maximum.
pub open spec fn inc_counter_spec(ctr: Seq<u8>) -> Seq<u8>
    decreases ctr.len(),
{
    if ctr.len() == 0 {
        ctr
    } else if ctr.last() == 255 {
        inc_counter_spec(ctr.drop_last()).push(0u8)
    } else {
        ctr.update(ctr.len() - 1, (ctr.last() + 1) as u8)
    }
}

/// Incrementing a counter keeps its width.
pub proof fn lemma_inc_counter_len(ctr: Seq<u8>)
    ensures
        inc_counter_spec(ctr).len() == ctr.len(),
    decreases ctr.len(),
{
    if ctr.len() > 0 && ctr.last() == 255 {
        lemma_inc_counter_len(ctr.drop_last());
    }
}

/// Increments a counter block in big-endian order, wrapping on overflow.
pub fn inc_counter(ctr: &Vec<u8>) -> (r: Vec<u8>)
    ensures
        r@ == inc_counter_spec(ctr@),
        r@.len() == ctr@.len(),
    decreases ctr@.len(),
{
    proof {
        lemma_inc_counter_len(ctr@);
    }
    let n = ctr.len();
    if n == 0 {
        let r: Vec<u8> = Vec::new();
        assert(r@ =~= inc_counter_spec(ctr@));
        return r;
    }
    let last = ctr[n - 1];
    if last == 255 {
        let head = copy_range(ctr, 0, n - 1);
        assert(head@ =~= ctr@.drop_last());
        let mut r = inc_counter(&head);
        r.push(0u8);
        assert(r@ =~= inc_counter_spec(ctr@));
        r
    } else {
        let mut r = copy_range(ctr, 0, n - 1);
        r.push(last + 1);
        assert(r@ =~= ctr@.update(ctr@.len() - 1, (last + 1) as u8));
        r
    }
}

} // verus!
