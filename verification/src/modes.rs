//! The five modes of operation over the block primitive. Block modes (ECB,
//! CBC) consume full blocks only; stream-style modes (CFB, OFB, CTR) XOR the
//! data against a keystream and keep the ciphertext exactly as long as the
//! plaintext. All chaining state is threaded through these functions; the
//! primitive itself holds none.
use vstd::prelude::*;

use crate::bytes::{append_bytes, copy_range, inc_counter, inc_counter_spec, lemma_xor_cancel,
    xor_bytes, xor_seq};
use crate::primitive::{kuz_decrypt_block_of, kuz_encrypt_block_of, BlockCipher};

verus! {

/// ECB encryption: each full 16-byte block is encrypted independently.
pub open spec fn ecb_encrypt_spec(key: Seq<u8>, pt: Seq<u8>) -> Seq<u8>
    decreases pt.len(),
{
    if pt.len() < 16 {
        Seq::empty()
    } else {
        kuz_encrypt_block_of(key, pt.take(16)) + ecb_encrypt_spec(key, pt.skip(16))
    }
}

/// ECB decryption: each full 16-byte block is decrypted independently.
pub open spec fn ecb_decrypt_spec(key: Seq<u8>, ct: Seq<u8>) -> Seq<u8>
    decreases ct.len(),
{
    if ct.len() < 16 {
        Seq::empty()
    } else {
        kuz_decrypt_block_of(key, ct.take(16)) + ecb_decrypt_spec(key, ct.skip(16))
    }
}

/// CBC encryption: each plaintext block is XORed with the previous
/// ciphertext block (the IV for the first) before it is encrypted.
pub open spec fn cbc_encrypt_spec(key: Seq<u8>, prev: Seq<u8>, pt: Seq<u8>) -> Seq<u8>
    decreases pt.len(),
{
    if pt.len() < 16 {
        Seq::empty()
    } else {
        let c = kuz_encrypt_block_of(key, xor_seq(pt.take(16), prev));
        c + cbc_encrypt_spec(key, c, pt.skip(16))
    }
}

/// CBC decryption: each ciphertext block is decrypted and then XORed with
/// the previous ciphertext block (the IV for the first).
pub open spec fn cbc_decrypt_spec(key: Seq<u8>, prev: Seq<u8>, ct: Seq<u8>) -> Seq<u8>
    decreases ct.len(),
{
    if ct.len() < 16 {
        Seq::empty()
    } else {
        xor_seq(kuz_decrypt_block_of(key, ct.take(16)), prev) + cbc_decrypt_spec(
            key,
            ct.take(16),
            ct.skip(16),
        )
    }
}

/// CFB encryption: the keystream block is the encryption of the previous
/// ciphertext block (the IV for the first); a short final chunk consumes
/// only that many keystream bytes.
pub open spec fn cfb_encrypt_spec(key: Seq<u8>, prev: Seq<u8>, pt: Seq<u8>) -> Seq<u8>
    decreases pt.len(),
{
    if pt.len() == 0 {
        Seq::empty()
    } else {
        let ks = kuz_encrypt_block_of(key, prev);
        if pt.len() <= 16 {
            xor_seq(pt, ks)
        } else {
            let c = xor_seq(pt.take(16), ks);
            c + cfb_encrypt_spec(key, c, pt.skip(16))
        }
    }
}

/// CFB decryption: the same keystream, chained on the ciphertext itself, so
/// the block primitive is only ever used in the encrypt direction.
pub open spec fn cfb_decrypt_spec(key: Seq<u8>, prev: Seq<u8>, ct: Seq<u8>) -> Seq<u8>
    decreases ct.len(),
{
    if ct.len() == 0 {
        Seq::empty()
    } else {
        let ks = kuz_encrypt_block_of(key, prev);
        if ct.len() <= 16 {
            xor_seq(ct, ks)
        } else {
            xor_seq(ct.take(16), ks) + cfb_decrypt_spec(key, ct.take(16), ct.skip(16))
        }
    }
}

/// OFB keystream application: the keystream chain depends only on the IV
/// and the key, and the same transform both encrypts and decrypts.
pub open spec fn ofb_apply_spec(key: Seq<u8>, state: Seq<u8>, data: Seq<u8>) -> Seq<u8>
    decreases data.len(),
{
    if data.len() == 0 {
        Seq::empty()
    } else {
        let ks = kuz_encrypt_block_of(key, state);
        if data.len() <= 16 {
            xor_seq(data, ks)
        } else {
            xor_seq(data.take(16), ks) + ofb_apply_spec(key, ks, data.skip(16))
        }
    }
}

/// CTR keystream application: the keystream block is the encryption of an
/// incrementing counter seeded by the IV; the same transform both encrypts
/// and decrypts.
pub open spec fn ctr_apply_spec(key: Seq<u8>, ctr: Seq<u8>, data: Seq<u8>) -> Seq<u8>
    decreases data.len(),
{
    if data.len() == 0 {
        Seq::empty()
    } else {
        let ks = kuz_encrypt_block_of(key, ctr);
        if data.len() <= 16 {
            xor_seq(data, ks)
        } else {
            xor_seq(data.take(16), ks) + ctr_apply_spec(key, inc_counter_spec(ctr), data.skip(16))
        }
    }
}

/// Applying the OFB transform twice with the same key and starting state
/// gives the data back: OFB decryption is OFB encryption.
pub proof fn lemma_ofb_involutive(key: Seq<u8>, state: Seq<u8>, data: Seq<u8>)
    ensures
        ofb_apply_spec(key, state, ofb_apply_spec(key, state, data)) == data,
    decreases data.len(),
{
    if data.len() == 0 {
        assert(ofb_apply_spec(key, state, ofb_apply_spec(key, state, data)) =~= data);
    } else {
        let ks = kuz_encrypt_block_of(key, state);
        if data.len() <= 16 {
            lemma_xor_cancel(data, ks);
        } else {
            let c = xor_seq(data.take(16), ks) + ofb_apply_spec(key, ks, data.skip(16));
            assert(ofb_apply_spec(key, ks, data.skip(16)).len() == data.skip(16).len()) by {
                lemma_ofb_apply_len(key, ks, data.skip(16));
            }
            assert(c.len() == data.len());
            assert(c.take(16) =~= xor_seq(data.take(16), ks));
            assert(c.skip(16) =~= ofb_apply_spec(key, ks, data.skip(16)));
            lemma_xor_cancel(data.take(16), ks);
            lemma_ofb_involutive(key, ks, data.skip(16));
            assert(ofb_apply_spec(key, state, c) =~= data);
        }
    }
}

/// The OFB transform keeps the length of the data.
pub proof fn lemma_ofb_apply_len(key: Seq<u8>, state: Seq<u8>, data: Seq<u8>)
    ensures
        ofb_apply_spec(key, state, data).len() == data.len(),
    decreases data.len(),
{
    if data.len() > 16 {
        lemma_ofb_apply_len(key, kuz_encrypt_block_of(key, state), data.skip(16));
    }
}

/// Applying the CTR transform twice with the same key and starting counter
/// gives the data back: CTR decryption is CTR encryption.
pub proof fn lemma_ctr_involutive(key: Seq<u8>, ctr: Seq<u8>, data: Seq<u8>)
    ensures
        ctr_apply_spec(key, ctr, ctr_apply_spec(key, ctr, data)) == data,
    decreases data.len(),
{
    if data.len() == 0 {
        assert(ctr_apply_spec(key, ctr, ctr_apply_spec(key, ctr, data)) =~= data);
    } else {
        let ks = kuz_encrypt_block_of(key, ctr);
        if data.len() <= 16 {
            lemma_xor_cancel(data, ks);
        } else {
            let c = xor_seq(data.take(16), ks) + ctr_apply_spec(
                key,
                inc_counter_spec(ctr),
                data.skip(16),
            );
            assert(ctr_apply_spec(key, inc_counter_spec(ctr), data.skip(16)).len() == data.skip(
                16,
            ).len()) by {
                lemma_ctr_apply_len(key, inc_counter_spec(ctr), data.skip(16));
            }
            assert(c.len() == data.len());
            assert(c.take(16) =~= xor_seq(data.take(16), ks));
            assert(c.skip(16) =~= ctr_apply_spec(key, inc_counter_spec(ctr), data.skip(16)));
            lemma_xor_cancel(data.take(16), ks);
            lemma_ctr_involutive(key, inc_counter_spec(ctr), data.skip(16));
            assert(ctr_apply_spec(key, ctr, c) =~= data);
        }
    }
}

/// The CTR transform keeps the length of the data.
pub proof fn lemma_ctr_apply_len(key: Seq<u8>, ctr: Seq<u8>, data: Seq<u8>)
    ensures
        ctr_apply_spec(key, ctr, data).len() == data.len(),
    decreases data.len(),
{
    if data.len() > 16 {
        lemma_ctr_apply_len(key, inc_counter_spec(ctr), data.skip(16));
    }
}

/// Encrypts a block-aligned plaintext in ECB; the result decrypts back to
/// the input.
pub fn ecb_encrypt(cipher: &BlockCipher, pt: &Vec<u8>) -> (r: Vec<u8>)
    requires
        pt@.len() % 16 == 0,
    ensures
        r@ == ecb_encrypt_spec(cipher.key_view(), pt@),
        r@.len() == pt@.len(),
        ecb_decrypt_spec(cipher.key_view(), r@) == pt@,
        forall|i: int|
            0 <= i && 16 * i + 16 <= pt@.len() ==> #[trigger] r@.subrange(16 * i, 16 * i + 16)
                == kuz_encrypt_block_of(cipher.key_view(), pt@.subrange(16 * i, 16 * i + 16)),
    decreases pt@.len(),
{
    if pt.len() == 0 {
        let r: Vec<u8> = Vec::new();
        assert(ecb_decrypt_spec(cipher.key_view(), r@) =~= pt@);
        return r;
    }
    assert(pt@.len() >= 16);
    let block = copy_range(pt, 0, 16);
    let rest_in = copy_range(pt, 16, pt.len());
    assert(block@ =~= pt@.take(16));
    assert(rest_in@ =~= pt@.skip(16));
    let mut out = cipher.encrypt_block_raw(&block);
    let rest = ecb_encrypt(cipher, &rest_in);
    let ghost eb = out@;
    append_bytes(&mut out, &rest);
    proof {
        assert(out@.take(16) =~= eb);
        assert(out@.skip(16) =~= rest@);
        assert(pt@.take(16) + pt@.skip(16) =~= pt@);
        assert(out@.subrange(0, 16) =~= eb);
        assert(pt@.subrange(0, 16) =~= block@);
        assert forall|i: int| 1 <= i && 16 * i + 16 <= pt@.len() implies #[trigger] out@.subrange(
            16 * i,
            16 * i + 16,
        ) == kuz_encrypt_block_of(cipher.key_view(), pt@.subrange(16 * i, 16 * i + 16)) by {
            assert(out@.subrange(16 * i, 16 * i + 16) =~= rest@.subrange(
                16 * (i - 1),
                16 * (i - 1) + 16,
            ));
            assert(rest_in@.subrange(16 * (i - 1), 16 * (i - 1) + 16) =~= pt@.subrange(
                16 * i,
                16 * i + 16,
            ));
        }
    }
    out
}

/// ECB determinism: in a ciphertext produced blockwise by ECB, as
/// `ecb_encrypt` guarantees its result is, two identical plaintext blocks
/// yield identical ciphertext blocks.
pub proof fn lemma_ecb_identical_blocks(key: Seq<u8>, pt: Seq<u8>, ct: Seq<u8>, i: int, j: int)
    requires
        forall|k: int|
            0 <= k && 16 * k + 16 <= pt.len() ==> #[trigger] ct.subrange(16 * k, 16 * k + 16)
                == kuz_encrypt_block_of(key, pt.subrange(16 * k, 16 * k + 16)),
        0 <= i && 16 * i + 16 <= pt.len(),
        0 <= j && 16 * j + 16 <= pt.len(),
        pt.subrange(16 * i, 16 * i + 16) == pt.subrange(16 * j, 16 * j + 16),
    ensures
        ct.subrange(16 * i, 16 * i + 16) == ct.subrange(16 * j, 16 * j + 16),
{
}

/// Decrypts a block-aligned ECB ciphertext; re-encrypting the result gives
/// the ciphertext back.
pub fn ecb_decrypt(cipher: &BlockCipher, ct: &Vec<u8>) -> (r: Vec<u8>)
    requires
        ct@.len() % 16 == 0,
    ensures
        r@ == ecb_decrypt_spec(cipher.key_view(), ct@),
        r@.len() == ct@.len(),
        ecb_encrypt_spec(cipher.key_view(), r@) == ct@,
    decreases ct@.len(),
{
    if ct.len() == 0 {
        let r: Vec<u8> = Vec::new();
        assert(ecb_encrypt_spec(cipher.key_view(), r@) =~= ct@);
        return r;
    }
    assert(ct@.len() >= 16);
    let block = copy_range(ct, 0, 16);
    let rest_in = copy_range(ct, 16, ct.len());
    assert(block@ =~= ct@.take(16));
    assert(rest_in@ =~= ct@.skip(16));
    let mut out = cipher.decrypt_block_raw(&block);
    let rest = ecb_decrypt(cipher, &rest_in);
    let ghost pb = out@;
    append_bytes(&mut out, &rest);
    proof {
        assert(out@.take(16) =~= pb);
        assert(out@.skip(16) =~= rest@);
        assert(ct@.take(16) + ct@.skip(16) =~= ct@);
    }
    out
}

/// Encrypts a block-aligned plaintext in CBC under the given IV; the result
/// decrypts back to the input under the same IV.
pub fn cbc_encrypt(cipher: &BlockCipher, iv: &Vec<u8>, pt: &Vec<u8>) -> (r: Vec<u8>)
    requires
        pt@.len() % 16 == 0,
        iv@.len() == 16,
    ensures
        r@ == cbc_encrypt_spec(cipher.key_view(), iv@, pt@),
        r@.len() == pt@.len(),
        cbc_decrypt_spec(cipher.key_view(), iv@, r@) == pt@,
    decreases pt@.len(),
{
    if pt.len() == 0 {
        let r: Vec<u8> = Vec::new();
        assert(cbc_decrypt_spec(cipher.key_view(), iv@, r@) =~= pt@);
        return r;
    }
    assert(pt@.len() >= 16);
    let block = copy_range(pt, 0, 16);
    let rest_in = copy_range(pt, 16, pt.len());
    assert(block@ =~= pt@.take(16));
    assert(rest_in@ =~= pt@.skip(16));
    let x = xor_bytes(&block, iv);
    let mut out = cipher.encrypt_block_raw(&x);
    let rest = cbc_encrypt(cipher, &out, &rest_in);
    let ghost c0 = out@;
    append_bytes(&mut out, &rest);
    proof {
        assert(out@.take(16) =~= c0);
        assert(out@.skip(16) =~= rest@);
        lemma_xor_cancel(pt@.take(16), iv@);
        assert(pt@.take(16) + pt@.skip(16) =~= pt@);
    }
    out
}

/// Decrypts a block-aligned CBC ciphertext under the given IV.
pub fn cbc_decrypt(cipher: &BlockCipher, iv: &Vec<u8>, ct: &Vec<u8>) -> (r: Vec<u8>)
    requires
        ct@.len() % 16 == 0,
        iv@.len() == 16,
    ensures
        r@ == cbc_decrypt_spec(cipher.key_view(), iv@, ct@),
        r@.len() == ct@.len(),
    decreases ct@.len(),
{
    if ct.len() == 0 {
        let r: Vec<u8> = Vec::new();
        return r;
    }
    assert(ct@.len() >= 16);
    let block = copy_range(ct, 0, 16);
    let rest_in = copy_range(ct, 16, ct.len());
    assert(block@ =~= ct@.take(16));
    assert(rest_in@ =~= ct@.skip(16));
    let db = cipher.decrypt_block_raw(&block);
    let mut out = xor_bytes(&db, iv);
    let rest = cbc_decrypt(cipher, &block, &rest_in);
    let ghost p0 = out@;
    append_bytes(&mut out, &rest);
    proof {
        assert(out@ =~= p0 + rest@);
    }
    out
}

/// Encrypts data of any non-zero length in CFB under the given IV; the
/// result decrypts back to the input under the same IV.
pub fn cfb_encrypt(cipher: &BlockCipher, iv: &Vec<u8>, pt: &Vec<u8>) -> (r: Vec<u8>)
    requires
        iv@.len() == 16,
    ensures
        r@ == cfb_encrypt_spec(cipher.key_view(), iv@, pt@),
        r@.len() == pt@.len(),
        cfb_decrypt_spec(cipher.key_view(), iv@, r@) == pt@,
    decreases pt@.len(),
{
    if pt.len() == 0 {
        let r: Vec<u8> = Vec::new();
        assert(cfb_decrypt_spec(cipher.key_view(), iv@, r@) =~= pt@);
        return r;
    }
    let ks = cipher.encrypt_block_raw(iv);
    if pt.len() <= 16 {
        let c = xor_bytes(pt, &ks);
        proof {
            lemma_xor_cancel(pt@, ks@);
        }
        c
    } else {
        let block = copy_range(pt, 0, 16);
        let rest_in = copy_range(pt, 16, pt.len());
        assert(block@ =~= pt@.take(16));
        assert(rest_in@ =~= pt@.skip(16));
        let mut out = xor_bytes(&block, &ks);
        let rest = cfb_encrypt(cipher, &out, &rest_in);
        let ghost c0 = out@;
        append_bytes(&mut out, &rest);
        proof {
            assert(out@.take(16) =~= c0);
            assert(out@.skip(16) =~= rest@);
            lemma_xor_cancel(pt@.take(16), ks@);
            assert(pt@.take(16) + pt@.skip(16) =~= pt@);
        }
        out
    }
}

/// Decrypts data of any non-zero length in CFB under the given IV; only the
/// encrypt direction of the primitive is used.
pub fn cfb_decrypt(cipher: &BlockCipher, iv: &Vec<u8>, ct: &Vec<u8>) -> (r: Vec<u8>)
    requires
        iv@.len() == 16,
    ensures
        r@ == cfb_decrypt_spec(cipher.key_view(), iv@, ct@),
        r@.len() == ct@.len(),
    decreases ct@.len(),
{
    if ct.len() == 0 {
        let r: Vec<u8> = Vec::new();
        return r;
    }
    let ks = cipher.encrypt_block_raw(iv);
    if ct.len() <= 16 {
        xor_bytes(ct, &ks)
    } else {
        let block = copy_range(ct, 0, 16);
        let rest_in = copy_range(ct, 16, ct.len());
        assert(block@ =~= ct@.take(16));
        assert(rest_in@ =~= ct@.skip(16));
        let mut out = xor_bytes(&block, &ks);
        let rest = cfb_decrypt(cipher, &block, &rest_in);
        let ghost p0 = out@;
        append_bytes(&mut out, &rest);
        proof {
            assert(out@ =~= p0 + rest@);
        }
        out
    }
}

/// Applies the OFB keystream to data of any length; the same function both
/// encrypts and decrypts.
pub fn ofb_apply(cipher: &BlockCipher, state: &Vec<u8>, data: &Vec<u8>) -> (r: Vec<u8>)
    requires
        state@.len() == 16,
    ensures
        r@ == ofb_apply_spec(cipher.key_view(), state@, data@),
        r@.len() == data@.len(),
    decreases data@.len(),
{
    if data.len() == 0 {
        let r: Vec<u8> = Vec::new();
        return r;
    }
    let ks = cipher.encrypt_block_raw(state);
    if data.len() <= 16 {
        xor_bytes(data, &ks)
    } else {
        let block = copy_range(data, 0, 16);
        let rest_in = copy_range(data, 16, data.len());
        assert(block@ =~= data@.take(16));
        assert(rest_in@ =~= data@.skip(16));
        let mut out = xor_bytes(&block, &ks);
        let rest = ofb_apply(cipher, &ks, &rest_in);
        let ghost c0 = out@;
        append_bytes(&mut out, &rest);
        proof {
            assert(out@ =~= c0 + rest@);
        }
        out
    }
}

/// Applies the CTR keystream to data of any length, incrementing the
/// counter once per full block; the same function both encrypts and
/// decrypts.
pub fn ctr_apply(cipher: &BlockCipher, ctr: &Vec<u8>, data: &Vec<u8>) -> (r: Vec<u8>)
    requires
        ctr@.len() == 16,
    ensures
        r@ == ctr_apply_spec(cipher.key_view(), ctr@, data@),
        r@.len() == data@.len(),
    decreases data@.len(),
{
    if data.len() == 0 {
        let r: Vec<u8> = Vec::new();
        return r;
    }
    let ks = cipher.encrypt_block_raw(ctr);
    if data.len() <= 16 {
        xor_bytes(data, &ks)
    } else {
        let block = copy_range(data, 0, 16);
        let rest_in = copy_range(data, 16, data.len());
        assert(block@ =~= data@.take(16));
        assert(rest_in@ =~= data@.skip(16));
        let next = inc_counter(ctr);
        let mut out = xor_bytes(&block, &ks);
        let rest = ctr_apply(cipher, &next, &rest_in);
        let ghost c0 = out@;
        append_bytes(&mut out, &rest);
        proof {
            assert(out@ =~= c0 + rest@);
        }
        out
    }
}

} // verus!
