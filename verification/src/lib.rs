//! A symmetric block-cipher encryption engine: a keyed block primitive
//! (Kuznyechik, GOST R 34.12-2015), five modes of operation (ECB, CBC, CFB,
//! OFB, CTR), a PKCS-style padding scheme, and a factory that turns a mode
//! name and a raw key into a single encrypt/decrypt interface. Block modes
//! pad and produce block-aligned ciphertext; stream-style modes keep the
//! ciphertext exactly as long as the plaintext. Every operation either
//! succeeds or reports one kind from a closed error taxonomy.
#![allow(unused_imports)]
use vstd::prelude::*;

pub mod bytes;
pub mod encryptor;
pub mod engine;
pub mod modes;
pub mod padding;
pub mod primitive;

verus! {

/// The closed set of failures that any engine operation can report.
///
/// Every fallible operation of the library returns either a success value or
/// exactly one of these kinds; there is no catch-all error. `InvalidPadding`
/// is deliberately overloaded: it is reported both for malformed padding bytes
/// and when a block-mode ciphertext was decrypted under the wrong key, since
/// the two causes are computationally indistinguishable.
#[derive(Clone, Copy, Debug, PartialEq, Eq, Structural)]
pub enum CipherError {
    InvalidKeyLength,
    InvalidIVLength,
    InvalidBlockSize,
    DataTooShort,
    DataNotAligned,
    InvalidPadding,
    InvalidKeyFormat,
    InvalidMode,
}

} // verus!
