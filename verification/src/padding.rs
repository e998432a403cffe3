//! PKCS-style padding: before block-mode encryption the plaintext grows by
//! `n` bytes each holding the value `n`, where `n` is between 1 and the block
//! size, so a full extra block is added when the length is already aligned
//! and removal is always unambiguous.
use vstd::prelude::*;

use crate::CipherError;

verus! {

/// `data` extended with `n` bytes of value `n`, where
/// `n = block_size - (data.len() % block_size)` is always in
/// `[1, block_size]`.
pub open spec fn pad_spec(data: Seq<u8>, block_size: nat) -> Seq<u8>
    recommends
        0 < block_size <= 255,
{
    let n = block_size - (data.len() % block_size);
    data + Seq::new(n as nat, |i: int| n as u8)
}

/// The unpadded prefix of `data`, or `None` when the trailing bytes are not
/// valid padding: the last byte `n` must be in `[1, block_size]`, no longer
/// than the data, and the last `n` bytes must all equal `n`.
pub open spec fn unpad_spec(data: Seq<u8>, block_size: nat) -> Option<Seq<u8>> {
    if data.len() == 0 {
        None
    } else {
        let n = data.last() as int;
        if n < 1 || n > block_size || n > data.len() {
            None
        } else if forall|i: int| data.len() - n <= i < data.len() ==> data[i] == data.last() {
            Some(data.take(data.len() - n))
        } else {
            None
        }
    }
}

/// Padding always grows the data by 1 to `block_size` bytes, and by exactly
/// one full block when the length is already a multiple of the block size.
pub proof fn lemma_pad_grows_full_block(data: Seq<u8>, block_size: nat)
    requires
        0 < block_size <= 255,
    ensures
        pad_spec(data, block_size).len() > data.len(),
        pad_spec(data, block_size).len() <= data.len() + block_size,
        pad_spec(data, block_size).len() % block_size == 0,
        data.len() % block_size == 0 ==> pad_spec(data, block_size).len() == data.len()
            + block_size,
{
    let bs = block_size as int;
    let r = data.len() % block_size;
    vstd::arithmetic::div_mod::lemma_mod_bound(data.len() as int, bs);
    let n = block_size - r;
    assert(pad_spec(data, block_size).len() == data.len() + n);
    vstd::arithmetic::div_mod::lemma_fundamental_div_mod(data.len() as int, bs);
    let q = data.len() as int / bs;
    assert((q + 1) * bs == q * bs + bs) by (nonlinear_arith);
    assert(data.len() + n == (q + 1) * bs);
    vstd::arithmetic::div_mod::lemma_mod_multiples_basic(q + 1, bs);
    assert((data.len() + n) % bs == 0);
}

/// Removing the padding that `pad_spec` added gives the original data back.
pub proof fn lemma_unpad_pad(data: Seq<u8>, block_size: nat)
    requires
        0 < block_size <= 255,
    ensures
        unpad_spec(pad_spec(data, block_size), block_size) == Some(data),
{
    let r = data.len() % block_size;
    vstd::arithmetic::div_mod::lemma_mod_bound(data.len() as int, block_size as int);
    let n = block_size - r;
    let p = pad_spec(data, block_size);
    assert(p.len() == data.len() + n);
    assert(p.last() == n as u8);
    assert(p.last() as int == n);
    assert(forall|i: int| p.len() - n <= i < p.len() ==> p[i] == p.last());
    assert(p.take(p.len() - n) =~= data);
}

/// Appends PKCS-style padding bytes up to the next multiple of `block_size`.
pub fn pad(data: &Vec<u8>, block_size: usize) -> (r: Vec<u8>)
    requires
        0 < block_size <= 255,
        data@.len() + block_size <= usize::MAX,
    ensures
        r@ == pad_spec(data@, block_size as nat),
{
    let n = block_size - (data.len() % block_size);
    let mut r = crate::bytes::copy_range(data, 0, data.len());
    assert(r@ =~= data@);
    let mut i: usize = 0;
    while i < n
        invariant
            i <= n,
            n == block_size - (data@.len() % (block_size as nat)),
            0 < n <= block_size <= 255,
            r@.len() == data@.len() + i,
            r@ == data@ + Seq::new(i as nat, |j: int| n as u8),
        decreases n - i,
    {
        r.push(n as u8);
        assert(r@ =~= data@ + Seq::new((i + 1) as nat, |j: int| n as u8));
        i = i + 1;
    }
    assert(r@ =~= pad_spec(data@, block_size as nat));
    r
}

/// Validates and removes PKCS-style padding, failing with `InvalidPadding`
/// exactly when `unpad_spec` rejects the trailing bytes.
pub fn unpad(data: &Vec<u8>, block_size: usize) -> (r: Result<Vec<u8>, CipherError>)
    requires
        0 < block_size <= 255,
    ensures
        match unpad_spec(data@, block_size as nat) {
            Some(p) => r matches Ok(v) && v@ == p,
            None => r == Err::<Vec<u8>, CipherError>(CipherError::InvalidPadding),
        },
{
    let len = data.len();
    if len == 0 {
        return Err(CipherError::InvalidPadding);
    }
    let n_byte = data[len - 1];
    let n = n_byte as usize;
    if n < 1 || n > block_size || n > len {
        return Err(CipherError::InvalidPadding);
    }
    let mut i: usize = len - n;
    while i < len
        invariant
            len == data@.len(),
            1 <= n <= len,
            n_byte == data@.last(),
            n == n_byte as int,
            len - n <= i <= len,
            forall|j: int| len - n <= j < i ==> data@[j] == data@.last(),
        decreases len - i,
    {
        if data[i] != n_byte {
            assert(data@[i as int] != data@.last());
            return Err(CipherError::InvalidPadding);
        }
        i = i + 1;
    }
    let out = crate::bytes::copy_range(data, 0, len - n);
    assert(out@ =~= data@.take(data@.len() - data@.last() as int));
    Ok(out)
}

} // verus!
