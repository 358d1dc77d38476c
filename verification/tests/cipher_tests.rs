use aes::cipher::block_padding::Pkcs7;
use aes::cipher::{BlockEncryptMut, KeyIvInit};
use streamres::error::Error;
use streamres::variant::{CipherState, VariantSegment};

type Aes128CbcEnc = cbc::Encryptor<aes::Aes128>;

fn encrypt(key: &[u8], iv: &[u8], plain: &[u8]) -> Vec<u8> {
    Aes128CbcEnc::new_from_slices(key, iv)
        .unwrap()
        .encrypt_padded_vec_mut::<Pkcs7>(plain)
}

#[test]
fn decrypt_without_key_is_identity() {
    let bytes: Vec<u8> = vec![0, 1, 2, 3, 254, 255];
    let out = VariantSegment::decrypt(bytes.clone(), None).unwrap();
    assert_eq!(out, bytes);
}

#[test]
fn decrypt_round_trips_encrypted_segment() {
    let key = b"0123456789abcdef";
    let iv = b"fedcba9876543210";
    let plain = b"the quick brown fox jumps over the lazy dog";
    let ciphertext = encrypt(key, iv, plain);
    assert_ne!(ciphertext, plain.to_vec());
    let state = CipherState { key: key.to_vec(), iv: iv.to_vec() };
    let out = VariantSegment::decrypt(ciphertext, Some(&state)).unwrap();
    assert_eq!(out, plain.to_vec());
}

#[test]
fn decrypt_round_trips_with_key_as_iv() {
    // the IV-fallback path: raw key bytes double as the IV
    let key = b"0123456789abcdef";
    let plain = b"segment payload";
    let ciphertext = encrypt(key, key, plain);
    let state = CipherState { key: key.to_vec(), iv: key.to_vec() };
    let out = VariantSegment::decrypt(ciphertext, Some(&state)).unwrap();
    assert_eq!(out, plain.to_vec());
}

#[test]
fn bad_padding_reports_decode_error_with_ciphertext() {
    let key = b"0123456789abcdef";
    let iv = b"fedcba9876543210";
    // length not a multiple of the block size: decryption must fail
    let garbage: Vec<u8> = vec![7; 15];
    let state = CipherState { key: key.to_vec(), iv: iv.to_vec() };
    let r = VariantSegment::decrypt(garbage.clone(), Some(&state));
    match r {
        Err(Error::Decode { content, url, .. }) => {
            assert_eq!(content, garbage);
            assert_eq!(url, "n/a");
        }
        Err(other) => panic!("expected Decode, got {:?}", other),
        Ok(_) => panic!("expected an error on unpadded garbage"),
    }
}

#[test]
fn invalid_key_length_reports_decode_error() {
    let state = CipherState { key: vec![1, 2, 3], iv: vec![4, 5, 6] };
    let bytes: Vec<u8> = vec![7; 16];
    let r = VariantSegment::decrypt(bytes.clone(), Some(&state));
    match r {
        Err(Error::Decode { content, .. }) => assert_eq!(content, bytes),
        other => panic!("expected Decode, got {:?}", other),
    }
}
