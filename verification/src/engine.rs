//! The mode/encryptor factory and the engine's outer interface: a mode-name
//! string and a raw key become a fully constructed encryptor, and
//! `encrypting` / `decrypting` run one message through it.
use vstd::prelude::*;
use vstd::string::*;

use crate::encryptor::{block_kind_iv_ok, stream_kind_iv_ok, BlockKind, Encryptor, StreamKind};
use crate::modes::{cbc_decrypt_spec, cbc_encrypt_spec, cfb_decrypt_spec, cfb_encrypt_spec,
    ctr_apply_spec, ecb_decrypt_spec, ecb_encrypt_spec, ofb_apply_spec};
use crate::padding::{pad_spec, unpad_spec};
use crate::primitive::BlockCipher;
use crate::CipherError;

verus! {

/// The five recognized modes of operation.
#[derive(Clone, Copy, Debug, PartialEq, Eq, Structural)]
pub enum ModeName {
    Ecb,
    Cbc,
    Cfb,
    Ofb,
    Ctr,
}

/// The UTF-8 bytes of the name `"ECB"`.
pub open spec fn name_ecb() -> Seq<u8> {
    seq!['E' as u8, 'C' as u8, 'B' as u8]
}

/// The UTF-8 bytes of the name `"CBC"`.
pub open spec fn name_cbc() -> Seq<u8> {
    seq!['C' as u8, 'B' as u8, 'C' as u8]
}

/// The UTF-8 bytes of the name `"CFB"`.
pub open spec fn name_cfb() -> Seq<u8> {
    seq!['C' as u8, 'F' as u8, 'B' as u8]
}

/// The UTF-8 bytes of the name `"OFB"`.
pub open spec fn name_ofb() -> Seq<u8> {
    seq!['O' as u8, 'F' as u8, 'B' as u8]
}

/// The UTF-8 bytes of the name `"CTR"`.
pub open spec fn name_ctr() -> Seq<u8> {
    seq!['C' as u8, 'T' as u8, 'R' as u8]
}

/// The mode a name denotes: an exact, case-sensitive match against the five
/// recognized names, read as UTF-8 bytes.
pub open spec fn mode_of_name(name: Seq<u8>) -> Option<ModeName> {
    if name == name_ecb() {
        Some(ModeName::Ecb)
    } else if name == name_cbc() {
        Some(ModeName::Cbc)
    } else if name == name_cfb() {
        Some(ModeName::Cfb)
    } else if name == name_ofb() {
        Some(ModeName::Ofb)
    } else if name == name_ctr() {
        Some(ModeName::Ctr)
    } else {
        None
    }
}

/// The fixed IV the factory hands to every IV-requiring mode.
pub open spec fn fixed_iv() -> Seq<u8> {
    seq![
        0x01u8,
        0x02u8,
        0x03u8,
        0x04u8,
        0x05u8,
        0x06u8,
        0x07u8,
        0x08u8,
        0x01u8,
        0x02u8,
        0x03u8,
        0x04u8,
        0x05u8,
        0x06u8,
        0x07u8,
        0x08u8,
    ]
}

/// Builds the factory's fixed IV.
pub fn make_fixed_iv() -> (r: Vec<u8>)
    ensures
        r@ == fixed_iv(),
        r@.len() == 16,
{
    let r: Vec<u8> = vec![
        0x01u8,
        0x02u8,
        0x03u8,
        0x04u8,
        0x05u8,
        0x06u8,
        0x07u8,
        0x08u8,
        0x01u8,
        0x02u8,
        0x03u8,
        0x04u8,
        0x05u8,
        0x06u8,
        0x07u8,
        0x08u8,
    ];
    assert(r@ =~= fixed_iv());
    r
}

/// Whether a byte slice holds exactly the three given bytes.
fn is_name(b: &[u8], c0: u8, c1: u8, c2: u8) -> (r: bool)
    ensures
        r == (b@ == seq![c0, c1, c2]),
{
    if b.len() == 3 {
        let r = b[0] == c0 && b[1] == c1 && b[2] == c2;
        proof {
            if r {
                assert(b@ =~= seq![c0, c1, c2]);
            } else {
                assert(b@ != seq![c0, c1, c2]);
            }
        }
        r
    } else {
        proof {
            assert(b@ != seq![c0, c1, c2]);
        }
        false
    }
}

/// Parses a mode name, exactly and case-sensitively.
pub fn parse_mode(name: &str) -> (r: Option<ModeName>)
    ensures
        r == mode_of_name(name.spec_bytes()),
{
    let b = name.as_bytes();
    if is_name(b, 'E' as u8, 'C' as u8, 'B' as u8) {
        Some(ModeName::Ecb)
    } else if is_name(b, 'C' as u8, 'B' as u8, 'C' as u8) {
        Some(ModeName::Cbc)
    } else if is_name(b, 'C' as u8, 'F' as u8, 'B' as u8) {
        Some(ModeName::Cfb)
    } else if is_name(b, 'O' as u8, 'F' as u8, 'B' as u8) {
        Some(ModeName::Ofb)
    } else if is_name(b, 'C' as u8, 'T' as u8, 'R' as u8) {
        Some(ModeName::Ctr)
    } else {
        None
    }
}

/// The encryptor the factory builds for a key and a mode: the right shape,
/// the key's primitive, and the fixed IV wherever the mode needs one.
pub open spec fn encryptor_matches(e: Encryptor, key: Seq<u8>, m: ModeName) -> bool {
    match m {
        ModeName::Ecb => e matches Encryptor::Block { cipher, kind } && cipher.key_view() == key
            && kind matches BlockKind::Ecb,
        ModeName::Cbc => e matches Encryptor::Block { cipher, kind } && cipher.key_view() == key
            && (kind matches BlockKind::Cbc { iv } && iv@ == fixed_iv()),
        ModeName::Cfb => e matches Encryptor::Stream { cipher, kind } && cipher.key_view() == key
            && (kind matches StreamKind::Cfb { iv } && iv@ == fixed_iv()),
        ModeName::Ofb => e matches Encryptor::Stream { cipher, kind } && cipher.key_view() == key
            && (kind matches StreamKind::Ofb { iv } && iv@ == fixed_iv()),
        ModeName::Ctr => e matches Encryptor::Stream { cipher, kind } && cipher.key_view() == key
            && (kind matches StreamKind::Ctr { iv } && iv@ == fixed_iv()),
    }
}

/// What `encrypting` returns for a valid key and mode.
pub open spec fn engine_encrypt_spec(key: Seq<u8>, m: ModeName, pt: Seq<u8>) -> Result<
    Seq<u8>,
    CipherError,
> {
    match m {
        ModeName::Ecb => Ok(ecb_encrypt_spec(key, pad_spec(pt, 16))),
        ModeName::Cbc => Ok(cbc_encrypt_spec(key, fixed_iv(), pad_spec(pt, 16))),
        ModeName::Cfb => if pt.len() == 0 {
            Err(CipherError::DataTooShort)
        } else {
            Ok(cfb_encrypt_spec(key, fixed_iv(), pt))
        },
        ModeName::Ofb => if pt.len() == 0 {
            Err(CipherError::DataTooShort)
        } else {
            Ok(ofb_apply_spec(key, fixed_iv(), pt))
        },
        ModeName::Ctr => if pt.len() == 0 {
            Err(CipherError::DataTooShort)
        } else {
            Ok(ctr_apply_spec(key, fixed_iv(), pt))
        },
    }
}

/// What `decrypting` returns for a valid key and mode.
pub open spec fn engine_decrypt_spec(key: Seq<u8>, m: ModeName, ct: Seq<u8>) -> Result<
    Seq<u8>,
    CipherError,
> {
    match m {
        ModeName::Ecb | ModeName::Cbc => {
            if ct.len() == 0 {
                Err(CipherError::DataTooShort)
            } else if ct.len() % 16 != 0 {
                Err(CipherError::DataNotAligned)
            } else {
                let plain = if m == ModeName::Ecb {
                    ecb_decrypt_spec(key, ct)
                } else {
                    cbc_decrypt_spec(key, fixed_iv(), ct)
                };
                match unpad_spec(plain, 16) {
                    Some(q) => Ok(q),
                    None => Err(CipherError::InvalidPadding),
                }
            }
        },
        ModeName::Cfb => if ct.len() == 0 {
            Err(CipherError::DataTooShort)
        } else {
            Ok(cfb_decrypt_spec(key, fixed_iv(), ct))
        },
        ModeName::Ofb => if ct.len() == 0 {
            Err(CipherError::DataTooShort)
        } else {
            Ok(ofb_apply_spec(key, fixed_iv(), ct))
        },
        ModeName::Ctr => if ct.len() == 0 {
            Err(CipherError::DataTooShort)
        } else {
            Ok(ctr_apply_spec(key, fixed_iv(), ct))
        },
    }
}

/// An encryptor the factory built behaves exactly as the engine-level
/// specifications say, for every byte sequence.
pub proof fn lemma_factory_specs(e: Encryptor, key: Seq<u8>, m: ModeName, d: Seq<u8>)
    requires
        encryptor_matches(e, key, m),
    ensures
        e.wf(),
        e.enc_spec(d) == engine_encrypt_spec(key, m, d),
        e.dec_spec(d) == engine_decrypt_spec(key, m, d),
{
}

/// Builds an encryptor for a mode name and a raw key: the single place that
/// knows which modes need an IV, which construction path each mode takes,
/// and the concrete IV value used. A bad key is reported before a bad mode
/// name, as `InvalidKeyLength`; an unrecognized name as `InvalidMode`.
pub fn get_encryptor(key: &Vec<u8>, encrypt_mode: &str) -> (r: Result<Encryptor, CipherError>)
    ensures
        key@.len() != 32 ==> r == Err::<Encryptor, CipherError>(CipherError::InvalidKeyLength),
        key@.len() == 32 ==> match mode_of_name(encrypt_mode.spec_bytes()) {
            Some(m) => r matches Ok(e) && encryptor_matches(e, key@, m),
            None => r == Err::<Encryptor, CipherError>(CipherError::InvalidMode),
        },
{
    let cipher = match BlockCipher::new(key) {
        Ok(c) => c,
        Err(e) => {
            return Err(e);
        },
    };
    let iv = make_fixed_iv();
    match parse_mode(encrypt_mode) {
        None => Err(CipherError::InvalidMode),
        Some(ModeName::Ecb) => Encryptor::new_block(cipher, BlockKind::Ecb),
        Some(ModeName::Cbc) => Encryptor::new_block(cipher, BlockKind::Cbc { iv }),
        Some(ModeName::Cfb) => Encryptor::new_stream(cipher, StreamKind::Cfb { iv }),
        Some(ModeName::Ofb) => Encryptor::new_stream(cipher, StreamKind::Ofb { iv }),
        Some(ModeName::Ctr) => Encryptor::new_stream(cipher, StreamKind::Ctr { iv }),
    }
}

/// Encrypts a message under a raw key and a mode name. For a valid key and
/// mode the ciphertext is exactly `engine_encrypt_spec`, and decrypting it
/// under the same key and mode gives the plaintext back.
pub fn encrypting(plaintext: Vec<u8>, key: Vec<u8>, encrypt_mode: &str) -> (r: Result<
    Vec<u8>,
    CipherError,
>)
    requires
        plaintext@.len() + 16 <= usize::MAX,
    ensures
        key@.len() != 32 ==> r == Err::<Vec<u8>, CipherError>(CipherError::InvalidKeyLength),
        key@.len() == 32 ==> match mode_of_name(encrypt_mode.spec_bytes()) {
            None => r == Err::<Vec<u8>, CipherError>(CipherError::InvalidMode),
            Some(m) => match engine_encrypt_spec(key@, m, plaintext@) {
                Ok(c) => r matches Ok(v) && v@ == c && engine_decrypt_spec(key@, m, c) == Ok::<
                    Seq<u8>,
                    CipherError,
                >(plaintext@),
                Err(e) => r == Err::<Vec<u8>, CipherError>(e),
            },
        },
{
    let encryptor = match get_encryptor(&key, encrypt_mode) {
        Ok(e) => e,
        Err(e) => {
            return Err(e);
        },
    };
    proof {
        let m = mode_of_name(encrypt_mode.spec_bytes()).unwrap();
        lemma_factory_specs(encryptor, key@, m, plaintext@);
    }
    let r = encryptor.encrypt(&plaintext);
    proof {
        let m = mode_of_name(encrypt_mode.spec_bytes()).unwrap();
        match engine_encrypt_spec(key@, m, plaintext@) {
            Ok(c) => lemma_factory_specs(encryptor, key@, m, c),
            Err(_) => (),
        }
    }
    r
}

/// Decrypts a message under a raw key and a mode name. For a valid key and
/// mode the result is exactly `engine_decrypt_spec`, which names the error
/// for every rejected ciphertext.
pub fn decrypting(ciphertext: Vec<u8>, key: Vec<u8>, encrypt_mode: &str) -> (r: Result<
    Vec<u8>,
    CipherError,
>)
    ensures
        key@.len() != 32 ==> r == Err::<Vec<u8>, CipherError>(CipherError::InvalidKeyLength),
        key@.len() == 32 ==> match mode_of_name(encrypt_mode.spec_bytes()) {
            None => r == Err::<Vec<u8>, CipherError>(CipherError::InvalidMode),
            Some(m) => match engine_decrypt_spec(key@, m, ciphertext@) {
                Ok(p) => r matches Ok(v) && v@ == p,
                Err(e) => r == Err::<Vec<u8>, CipherError>(e),
            },
        },
{
    let encryptor = match get_encryptor(&key, encrypt_mode) {
        Ok(e) => e,
        Err(e) => {
            return Err(e);
        },
    };
    proof {
        let m = mode_of_name(encrypt_mode.spec_bytes()).unwrap();
        lemma_factory_specs(encryptor, key@, m, ciphertext@);
    }
    encryptor.decrypt(&ciphertext)
}

} // verus!
