//! The keyed block primitive: a Kuznyechik (GOST R 34.12-2015) instance that
//! transforms exactly one 16-byte block in each direction. All chaining state
//! lives in the modes of operation; the primitive only holds the key schedule
//! set up at construction.
use vstd::prelude::*;

use crate::CipherError;

verus! {

/// What Kuznyechik block encryption returns for a given key and 16-byte
/// block: a pure function of the two arguments.
pub uninterp spec fn kuz_encrypt_block_of(key: Seq<u8>, block: Seq<u8>) -> Seq<u8>;

/// What Kuznyechik block decryption returns for a given key and 16-byte
/// block: a pure function of the two arguments, and the inverse of
/// `kuz_encrypt_block_of` under the same key.
pub uninterp spec fn kuz_decrypt_block_of(key: Seq<u8>, block: Seq<u8>) -> Seq<u8>;

/// Declares kuznyechik::Kuznyechik so the keyed instance can be held in a
/// field; its values stay opaque and are only touched by the wrappers below.
#[verifier::external_type_specification]
#[verifier::external_body]
pub struct ExKuznyechik(kuznyechik::Kuznyechik);

/// The number of bytes in one cipher block.
pub const BLOCK_SIZE: usize = 16;

/// The number of bytes a key must have.
pub const KEY_SIZE: usize = 32;

/// A keyed block primitive: one Kuznyechik instance together with the key it
/// was built from. `new` is the only constructor, so the key schedule held in
/// `inner` always comes from the bytes held in `key`.
pub struct BlockCipher {
    inner: kuznyechik::Kuznyechik,
    key: Vec<u8>,
}

impl BlockCipher {
    /// The key this primitive was constructed with.
    pub closed spec fn key_view(&self) -> Seq<u8> {
        self.key@
    }

    /// Relies on kuznyechik::Kuznyechik::new_from_slice (cipher::KeyInit):
    /// it returns Ok exactly when the slice has the cipher's 32-byte key size.
    #[verifier::external_body]
    fn kuz_new(key: &Vec<u8>) -> (r: Option<kuznyechik::Kuznyechik>)
        ensures
            r is Some <==> key@.len() == 32,
    {
        <kuznyechik::Kuznyechik as cipher::KeyInit>::new_from_slice(key.as_slice()).ok()
    }

    /// Builds the primitive from a raw key of exactly `KEY_SIZE` bytes.
    pub fn new(key: &Vec<u8>) -> (r: Result<BlockCipher, CipherError>)
        ensures
            key@.len() == 32 ==> (r matches Ok(c) && c.key_view() == key@),
            key@.len() != 32 ==> r == Err::<BlockCipher, CipherError>(
                CipherError::InvalidKeyLength,
            ),
    {
        match Self::kuz_new(key) {
            Some(inner) => {
                let key_copy = crate::bytes::copy_range(key, 0, key.len());
                assert(key_copy@ =~= key@);
                Ok(BlockCipher { inner, key: key_copy })
            },
            None => Err(CipherError::InvalidKeyLength),
        }
    }

    /// Relies on cipher::BlockCipherEncrypt::encrypt_block for Kuznyechik: a
    /// deterministic in-place transform of one 16-byte block fixed entirely
    /// by the key. The crate's decrypt backend applies the inverse round
    /// sequence under inverted round keys, so the result decrypts back to
    /// the input block.
    #[verifier::external_body]
    pub(crate) fn encrypt_block_raw(&self, block: &Vec<u8>) -> (r: Vec<u8>)
        requires
            block@.len() == 16,
        ensures
            r@ == kuz_encrypt_block_of(self.key_view(), block@),
            r@.len() == 16,
            kuz_decrypt_block_of(self.key_view(), r@) == block@,
    {
        let mut b = kuznyechik::Block::default();
        b.copy_from_slice(block.as_slice());
        cipher::BlockCipherEncrypt::encrypt_block(&self.inner, &mut b);
        b.as_slice().to_vec()
    }

    /// Relies on cipher::BlockCipherDecrypt::decrypt_block for Kuznyechik:
    /// the inverse of the encryption transform under the same key, again a
    /// deterministic function of key and block alone, so encrypting the
    /// result gives the input block back.
    #[verifier::external_body]
    pub(crate) fn decrypt_block_raw(&self, block: &Vec<u8>) -> (r: Vec<u8>)
        requires
            block@.len() == 16,
        ensures
            r@ == kuz_decrypt_block_of(self.key_view(), block@),
            r@.len() == 16,
            kuz_encrypt_block_of(self.key_view(), r@) == block@,
    {
        let mut b = kuznyechik::Block::default();
        b.copy_from_slice(block.as_slice());
        cipher::BlockCipherDecrypt::decrypt_block(&self.inner, &mut b);
        b.as_slice().to_vec()
    }

    /// Encrypts exactly one block; any other input length is a caller
    /// contract violation reported as `InvalidBlockSize`.
    pub fn encrypt_block(&self, block: &Vec<u8>) -> (r: Result<Vec<u8>, CipherError>)
        ensures
            block@.len() == 16 ==> (r matches Ok(c) && c@ == kuz_encrypt_block_of(
                self.key_view(),
                block@,
            )),
            block@.len() != 16 ==> r == Err::<Vec<u8>, CipherError>(CipherError::InvalidBlockSize),
    {
        if block.len() == BLOCK_SIZE {
            Ok(self.encrypt_block_raw(block))
        } else {
            Err(CipherError::InvalidBlockSize)
        }
    }

    /// Decrypts exactly one block; any other input length is a caller
    /// contract violation reported as `InvalidBlockSize`.
    pub fn decrypt_block(&self, block: &Vec<u8>) -> (r: Result<Vec<u8>, CipherError>)
        ensures
            block@.len() == 16 ==> (r matches Ok(p) && p@ == kuz_decrypt_block_of(
                self.key_view(),
                block@,
            )),
            block@.len() != 16 ==> r == Err::<Vec<u8>, CipherError>(CipherError::InvalidBlockSize),
    {
        if block.len() == BLOCK_SIZE {
            Ok(self.decrypt_block_raw(block))
        } else {
            Err(CipherError::InvalidBlockSize)
        }
    }
}

} // verus!
