use vstd::prelude::*;
use vstd::string::StringExecFns;
use aes::cipher::{BlockDecryptMut, KeyIvInit};
use crate::error::Error;
use crate::variant::{CipherState, VariantSegment};

verus! {

/// What AES-128-CBC decryption with PKCS7 unpadding yields for a key, an
/// initialization vector and a ciphertext: a function of those bytes alone.
/// `None` stands for a key or IV of invalid length, or for bad padding.
pub uninterp spec fn aes128_cbc_decrypt(key: Seq<u8>, iv: Seq<u8>, data: Seq<u8>) -> Option<
    Seq<u8>,
>;

/// Relies on `cbc::Decryptor::<aes::Aes128>` (`new_from_slices`, then
/// `decrypt_padded_mut` with PKCS7): the decrypted bytes depend on key, IV
/// and ciphertext alone; an invalid key/IV length or bad padding is an
/// error. Input that is empty or not a whole number of 16-byte blocks can
/// never unpad, and a successful unpad removes between 1 and 16 padding
/// bytes from the final block.
#[verifier::external_body]
fn aes_decrypt_bytes(key: &Vec<u8>, iv: &Vec<u8>, data: &Vec<u8>) -> (r: Option<Vec<u8>>)
    ensures
        match r {
            Some(p) => aes128_cbc_decrypt(key@, iv@, data@) == Some(p@) && data@.len() > 0
                && data@.len() % 16 == 0 && data@.len() - 16 <= p@.len() < data@.len(),
            None => aes128_cbc_decrypt(key@, iv@, data@) is None,
        },
        data@.len() == 0 || data@.len() % 16 != 0 ==> r is None,
{
    let dec = cbc::Decryptor::<aes::Aes128>::new_from_slices(key.as_slice(), iv.as_slice())
        .ok()?;
    let mut buf = data.clone();
    let plain = dec.decrypt_padded_mut::<aes::cipher::block_padding::Pkcs7>(&mut buf).ok()?;
    Some(plain.to_vec())
}

impl VariantSegment {
    /// Decrypt one segment's raw bytes. With no key the input is returned
    /// unchanged, byte for byte. With a key, AES-128-CBC with PKCS7
    /// unpadding is applied; on failure the error carries the untouched
    /// ciphertext (the URL is unknown at this layer).
    pub fn decrypt(segment_bytes: Vec<u8>, key: Option<&CipherState>) -> (r: Result<
        Vec<u8>,
        Error,
    >)
        ensures
            match key {
                None => r == Ok::<Vec<u8>, Error>(segment_bytes),
                Some(k) => match aes128_cbc_decrypt(k.key@, k.iv@, segment_bytes@) {
                    Some(p) => (r matches Ok(v) && v@ == p && segment_bytes@.len() > 0
                        && segment_bytes@.len() % 16 == 0 && segment_bytes@.len() - 16 <= v@.len()
                        < segment_bytes@.len()),
                    None => (r matches Err(Error::Decode { message, content, url })
                        && message@ == "failed to decrypt segment"@ && content@ == segment_bytes@
                        && url@ == "n/a"@),
                },
            },
            key matches Some(_) && (segment_bytes@.len() == 0 || segment_bytes@.len() % 16 != 0)
                ==> r is Err,
    {
        match key {
            None => Ok(segment_bytes),
            Some(k) => match aes_decrypt_bytes(&k.key, &k.iv, &segment_bytes) {
                Some(plain) => Ok(plain),
                None => Err(
                    Error::Decode {
                        message: String::from_str("failed to decrypt segment"),
                        content: segment_bytes,
                        url: String::from_str("n/a"),
                    },
                ),
            },
        }
    }
}

} // verus!
