//! The composition root: a block primitive bound to one mode of operation,
//! with padding for the block modes and none for the stream-style modes.
//! The two shapes have disjoint operational contracts, so the encryptor is
//! a tagged union over them, selected once at construction.
use vstd::prelude::*;

use crate::modes::{cbc_decrypt, cbc_decrypt_spec, cbc_encrypt, cbc_encrypt_spec, cfb_decrypt,
    cfb_decrypt_spec, cfb_encrypt, cfb_encrypt_spec, ctr_apply, ctr_apply_spec, ecb_decrypt,
    ecb_decrypt_spec, ecb_encrypt, ecb_encrypt_spec, lemma_ctr_involutive, lemma_ofb_involutive,
    ofb_apply, ofb_apply_spec};
use crate::padding::{lemma_pad_grows_full_block, lemma_unpad_pad, pad, pad_spec, unpad,
    unpad_spec};
use crate::primitive::BlockCipher;
use crate::CipherError;

verus! {

/// A chaining discipline that consumes full blocks only and is always
/// paired with padding.
pub enum BlockKind {
    Ecb,
    Cbc { iv: Vec<u8> },
}

/// A chaining discipline that works as a self-padding stream: ciphertext
/// length equals plaintext length and padding is never invoked.
pub enum StreamKind {
    Cfb { iv: Vec<u8> },
    Ofb { iv: Vec<u8> },
    Ctr { iv: Vec<u8> },
}

/// One block primitive bound to one mode, in one of two closed shapes:
/// a block encryptor (with padding) or a stream encryptor (without).
#[allow(inconsistent_fields)]
pub enum Encryptor {
    Block { cipher: BlockCipher, kind: BlockKind },
    Stream { cipher: BlockCipher, kind: StreamKind },
}

/// The IV a block-mode discipline requires, if any, has the block size.
pub open spec fn block_kind_iv_ok(kind: BlockKind) -> bool {
    match kind {
        BlockKind::Ecb => true,
        BlockKind::Cbc { iv } => iv@.len() == 16,
    }
}

/// The IV a stream-mode discipline requires has the block size.
pub open spec fn stream_kind_iv_ok(kind: StreamKind) -> bool {
    match kind {
        StreamKind::Cfb { iv } => iv@.len() == 16,
        StreamKind::Ofb { iv } => iv@.len() == 16,
        StreamKind::Ctr { iv } => iv@.len() == 16,
    }
}

impl Encryptor {
    /// Every IV held by the encryptor has the block size.
    pub open spec fn wf(&self) -> bool {
        match self {
            Encryptor::Block { cipher, kind } => block_kind_iv_ok(*kind),
            Encryptor::Stream { cipher, kind } => stream_kind_iv_ok(*kind),
        }
    }

    /// The key of the block primitive this encryptor owns.
    pub open spec fn key_view(&self) -> Seq<u8> {
        match self {
            Encryptor::Block { cipher, kind } => cipher.key_view(),
            Encryptor::Stream { cipher, kind } => cipher.key_view(),
        }
    }

    /// What `encrypt` returns: block modes pad and then chain full blocks;
    /// stream modes XOR a keystream over the data and reject empty input.
    pub open spec fn enc_spec(&self, data: Seq<u8>) -> Result<Seq<u8>, CipherError> {
        match self {
            Encryptor::Block { cipher, kind } => {
                let padded = pad_spec(data, 16);
                match kind {
                    BlockKind::Ecb => Ok(ecb_encrypt_spec(cipher.key_view(), padded)),
                    BlockKind::Cbc { iv } => Ok(cbc_encrypt_spec(cipher.key_view(), iv@, padded)),
                }
            },
            Encryptor::Stream { cipher, kind } => {
                if data.len() == 0 {
                    Err(CipherError::DataTooShort)
                } else {
                    match kind {
                        StreamKind::Cfb { iv } => Ok(
                            cfb_encrypt_spec(cipher.key_view(), iv@, data),
                        ),
                        StreamKind::Ofb { iv } => Ok(ofb_apply_spec(cipher.key_view(), iv@, data)),
                        StreamKind::Ctr { iv } => Ok(ctr_apply_spec(cipher.key_view(), iv@, data)),
                    }
                }
            },
        }
    }

    /// What `decrypt` returns: block modes demand non-empty, block-aligned
    /// ciphertext and then validate the padding; stream modes only reject
    /// empty input.
    pub open spec fn dec_spec(&self, data: Seq<u8>) -> Result<Seq<u8>, CipherError> {
        match self {
            Encryptor::Block { cipher, kind } => {
                if data.len() == 0 {
                    Err(CipherError::DataTooShort)
                } else if data.len() % 16 != 0 {
                    Err(CipherError::DataNotAligned)
                } else {
                    let plain = match kind {
                        BlockKind::Ecb => ecb_decrypt_spec(cipher.key_view(), data),
                        BlockKind::Cbc { iv } => cbc_decrypt_spec(cipher.key_view(), iv@, data),
                    };
                    match unpad_spec(plain, 16) {
                        Some(q) => Ok(q),
                        None => Err(CipherError::InvalidPadding),
                    }
                }
            },
            Encryptor::Stream { cipher, kind } => {
                if data.len() == 0 {
                    Err(CipherError::DataTooShort)
                } else {
                    match kind {
                        StreamKind::Cfb { iv } => Ok(
                            cfb_decrypt_spec(cipher.key_view(), iv@, data),
                        ),
                        StreamKind::Ofb { iv } => Ok(ofb_apply_spec(cipher.key_view(), iv@, data)),
                        StreamKind::Ctr { iv } => Ok(ctr_apply_spec(cipher.key_view(), iv@, data)),
                    }
                }
            },
        }
    }

    /// Binds a primitive and a block-mode discipline into a block encryptor,
    /// rejecting an IV that does not have the block size.
    pub fn new_block(cipher: BlockCipher, kind: BlockKind) -> (r: Result<Encryptor, CipherError>)
        ensures
            block_kind_iv_ok(kind) ==> r == Ok::<Encryptor, CipherError>(
                Encryptor::Block { cipher, kind },
            ),
            !block_kind_iv_ok(kind) ==> r == Err::<Encryptor, CipherError>(
                CipherError::InvalidIVLength,
            ),
    {
        let ok = match &kind {
            BlockKind::Ecb => true,
            BlockKind::Cbc { iv } => iv.len() == 16,
        };
        if ok {
            Ok(Encryptor::Block { cipher, kind })
        } else {
            Err(CipherError::InvalidIVLength)
        }
    }

    /// Binds a primitive and a stream-mode discipline into a stream
    /// encryptor, rejecting an IV that does not have the block size.
    pub fn new_stream(cipher: BlockCipher, kind: StreamKind) -> (r: Result<Encryptor, CipherError>)
        ensures
            stream_kind_iv_ok(kind) ==> r == Ok::<Encryptor, CipherError>(
                Encryptor::Stream { cipher, kind },
            ),
            !stream_kind_iv_ok(kind) ==> r == Err::<Encryptor, CipherError>(
                CipherError::InvalidIVLength,
            ),
    {
        let ok = match &kind {
            StreamKind::Cfb { iv } => iv.len() == 16,
            StreamKind::Ofb { iv } => iv.len() == 16,
            StreamKind::Ctr { iv } => iv.len() == 16,
        };
        if ok {
            Ok(Encryptor::Stream { cipher, kind })
        } else {
            Err(CipherError::InvalidIVLength)
        }
    }

    /// Encrypts a byte sequence. On success the ciphertext is exactly
    /// `enc_spec` and decrypting it under this same encryptor gives the
    /// plaintext back.
    pub fn encrypt(&self, data: &Vec<u8>) -> (r: Result<Vec<u8>, CipherError>)
        requires
            self.wf(),
            self matches Encryptor::Block { .. } ==> data@.len() + 16 <= usize::MAX,
        ensures
            match self.enc_spec(data@) {
                Ok(c) => r matches Ok(v) && v@ == c && self.dec_spec(c) == Ok::<
                    Seq<u8>,
                    CipherError,
                >(data@),
                Err(e) => r == Err::<Vec<u8>, CipherError>(e),
            },
    {
        match self {
            Encryptor::Block { cipher, kind } => {
                let padded = pad(data, 16);
                proof {
                    lemma_pad_grows_full_block(data@, 16);
                    lemma_unpad_pad(data@, 16);
                }
                let ct = match kind {
                    BlockKind::Ecb => ecb_encrypt(cipher, &padded),
                    BlockKind::Cbc { iv } => cbc_encrypt(cipher, iv, &padded),
                };
                Ok(ct)
            },
            Encryptor::Stream { cipher, kind } => {
                if data.len() == 0 {
                    return Err(CipherError::DataTooShort);
                }
                let ct = match kind {
                    StreamKind::Cfb { iv } => cfb_encrypt(cipher, iv, data),
                    StreamKind::Ofb { iv } => {
                        proof {
                            lemma_ofb_involutive(cipher.key_view(), iv@, data@);
                        }
                        ofb_apply(cipher, iv, data)
                    },
                    StreamKind::Ctr { iv } => {
                        proof {
                            lemma_ctr_involutive(cipher.key_view(), iv@, data@);
                        }
                        ctr_apply(cipher, iv, data)
                    },
                };
                Ok(ct)
            },
        }
    }

    /// Decrypts a byte sequence; the result is exactly `dec_spec`.
    pub fn decrypt(&self, data: &Vec<u8>) -> (r: Result<Vec<u8>, CipherError>)
        requires
            self.wf(),
        ensures
            match self.dec_spec(data@) {
                Ok(p) => r matches Ok(v) && v@ == p,
                Err(e) => r == Err::<Vec<u8>, CipherError>(e),
            },
    {
        match self {
            Encryptor::Block { cipher, kind } => {
                if data.len() == 0 {
                    return Err(CipherError::DataTooShort);
                }
                if data.len() % 16 != 0 {
                    return Err(CipherError::DataNotAligned);
                }
                let plain = match kind {
                    BlockKind::Ecb => ecb_decrypt(cipher, data),
                    BlockKind::Cbc { iv } => cbc_decrypt(cipher, iv, data),
                };
                unpad(&plain, 16)
            },
            Encryptor::Stream { cipher, kind } => {
                if data.len() == 0 {
                    return Err(CipherError::DataTooShort);
                }
                let pt = match kind {
                    StreamKind::Cfb { iv } => cfb_decrypt(cipher, iv, data),
                    StreamKind::Ofb { iv } => ofb_apply(cipher, iv, data),
                    StreamKind::Ctr { iv } => ctr_apply(cipher, iv, data),
                };
                Ok(pt)
            },
        }
    }
}

} // verus!
