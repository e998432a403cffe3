use grass_crypt::encryptor::{BlockKind, Encryptor, StreamKind};
use grass_crypt::padding::{pad, unpad};
use grass_crypt::primitive::BlockCipher;
use grass_crypt::CipherError;

fn key_a() -> Vec<u8> {
    let mut k = Vec::new();
    for i in 0..32u8 {
        k.push(i);
    }
    k
}

#[test]
fn padding_grows_aligned_data_by_one_full_block() {
    let data = vec![7u8; 16];
    let padded = pad(&data, 16);
    assert_eq!(padded.len(), 32);
    assert_eq!(&padded[0..16], data.as_slice());
    assert_eq!(&padded[16..32], [16u8; 16].as_slice());
}

#[test]
fn padding_fills_up_to_the_block_size() {
    let data = vec![7u8; 13];
    let padded = pad(&data, 16);
    assert_eq!(padded.len(), 16);
    assert_eq!(&padded[13..16], [3u8, 3, 3].as_slice());
    assert_eq!(unpad(&padded, 16), Ok(data));
}

#[test]
fn unpad_rejects_malformed_padding() {
    assert_eq!(unpad(&vec![0u8; 16], 16), Err(CipherError::InvalidPadding));
    assert_eq!(unpad(&vec![17u8; 16], 16), Err(CipherError::InvalidPadding));
    assert_eq!(unpad(&vec![5u8, 4, 4, 4], 16), Err(CipherError::InvalidPadding));
    assert_eq!(unpad(&Vec::new(), 16), Err(CipherError::InvalidPadding));
    let mut ok = vec![9u8; 14];
    ok.push(2);
    ok.push(2);
    assert_eq!(unpad(&ok, 16), Ok(vec![9u8; 14]));
}

#[test]
fn block_cipher_rejects_bad_key_and_block_lengths() {
    assert!(matches!(
        BlockCipher::new(&vec![0u8; 31]),
        Err(CipherError::InvalidKeyLength)
    ));
    assert!(matches!(
        BlockCipher::new(&vec![0u8; 33]),
        Err(CipherError::InvalidKeyLength)
    ));
    let c = BlockCipher::new(&key_a()).unwrap();
    assert_eq!(
        c.encrypt_block(&vec![0u8; 15]),
        Err(CipherError::InvalidBlockSize)
    );
    assert_eq!(
        c.decrypt_block(&vec![0u8; 17]),
        Err(CipherError::InvalidBlockSize)
    );
}

#[test]
fn block_cipher_round_trips_one_block() {
    let c = BlockCipher::new(&key_a()).unwrap();
    let block = vec![0xC3u8; 16];
    let e = c.encrypt_block(&block).unwrap();
    assert_eq!(e.len(), 16);
    assert_ne!(e, block);
    let d = c.decrypt_block(&e).unwrap();
    assert_eq!(d, block);
}

#[test]
fn encryptor_constructors_check_the_iv_length() {
    let c = BlockCipher::new(&key_a()).unwrap();
    let r = Encryptor::new_block(c, BlockKind::Cbc { iv: vec![0u8; 15] });
    assert!(matches!(r, Err(CipherError::InvalidIVLength)));
    let c = BlockCipher::new(&key_a()).unwrap();
    let r = Encryptor::new_stream(c, StreamKind::Ctr { iv: vec![0u8; 17] });
    assert!(matches!(r, Err(CipherError::InvalidIVLength)));
}

#[test]
fn encryptor_with_caller_supplied_iv_round_trips() {
    let c = BlockCipher::new(&key_a()).unwrap();
    let iv: Vec<u8> = (0..16u8).map(|i| 0x30 + i).collect();
    let e = Encryptor::new_stream(c, StreamKind::Cfb { iv }).unwrap();
    let pt = vec![1u8, 2, 3, 4, 5, 6, 7];
    let ct = e.encrypt(&pt).unwrap();
    assert_eq!(ct.len(), 7);
    let back = e.decrypt(&ct).unwrap();
    assert_eq!(back, pt);
}

#[test]
fn block_encryptor_decrypt_validates_alignment() {
    let c = BlockCipher::new(&key_a()).unwrap();
    let e = Encryptor::new_block(c, BlockKind::Ecb).unwrap();
    assert_eq!(e.decrypt(&vec![0u8; 9]), Err(CipherError::DataNotAligned));
    assert_eq!(e.decrypt(&Vec::new()), Err(CipherError::DataTooShort));
}
