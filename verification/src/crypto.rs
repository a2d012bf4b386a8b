use vstd::prelude::*;
use aes::cipher::block_padding::NoPadding;
use aes::cipher::{BlockDecryptMut, KeyIvInit};
use hmac::Mac;

verus! {

/// The 32-byte key that PBKDF2-HMAC-SHA1 derives from a password, a salt and
/// an iteration count.  The result depends on those three inputs alone.
pub uninterp spec fn spec_pbkdf2_sha1(password: Seq<u8>, salt: Seq<u8>, rounds: u32) -> Seq<u8>;

/// The 20-byte HMAC-SHA1 tag of `message` under `key`.  The result depends on
/// the two inputs alone.
pub uninterp spec fn spec_hmac_sha1(key: Seq<u8>, message: Seq<u8>) -> Seq<u8>;

/// The AES-256-CBC decryption of `ciphertext` (no padding scheme) under `key`
/// with initialisation vector `iv`: as long as the ciphertext, and a function
/// of the three inputs alone.
pub uninterp spec fn spec_aes256_cbc_decrypt(key: Seq<u8>, iv: Seq<u8>, ciphertext: Seq<u8>) -> Seq<
    u8,
>;

/// Relies on `pbkdf2::pbkdf2` with `hmac::Hmac<sha1::Sha1>` as the PRF: it
/// fills the 32-byte output buffer deterministically from password, salt and
/// round count, and its only error source — keying the PRF — cannot fire,
/// because HMAC accepts keys of any length.
#[verifier::external_body]
pub(crate) fn pbkdf2_sha1(password: &[u8], salt: &[u8], rounds: u32) -> (r: Vec<u8>)
    ensures
        r@ == spec_pbkdf2_sha1(password@, salt@, rounds),
        r@.len() == 32,
{
    let mut out = [0u8; 32];
    pbkdf2::pbkdf2::<hmac::Hmac<sha1::Sha1>>(password, salt, rounds, &mut out)
        .expect("HMAC accepts keys of any length");
    out.to_vec()
}

/// Relies on `hmac::Hmac<sha1::Sha1>`: a 20-byte tag computed from the key
/// and the message alone; keying cannot fail, whatever the key length.
#[verifier::external_body]
pub(crate) fn hmac_sha1(key: &[u8], message: &[u8]) -> (r: Vec<u8>)
    ensures
        r@ == spec_hmac_sha1(key@, message@),
        r@.len() == 20,
{
    let mut mac = hmac::Hmac::<sha1::Sha1>::new_from_slice(key)
        .expect("HMAC accepts keys of any length");
    mac.update(message);
    mac.finalize().into_bytes().to_vec()
}

/// Relies on `cbc::Decryptor<aes::Aes256>`: with a 32-byte key, a 16-byte IV
/// and block-aligned input its two fallible steps — length-checked
/// construction and no-padding block decryption into an equally long buffer —
/// always succeed, and the output is a function of the three inputs alone.
#[verifier::external_body]
pub(crate) fn aes256_cbc_decrypt(key: &[u8], iv: &[u8], ciphertext: &[u8]) -> (r: Vec<u8>)
    requires
        key@.len() == 32,
        iv@.len() == 16,
        ciphertext@.len() % 16 == 0,
    ensures
        r@ == spec_aes256_cbc_decrypt(key@, iv@, ciphertext@),
        r@.len() == ciphertext@.len(),
{
    let decryptor = cbc::Decryptor::<aes::Aes256>::new_from_slices(key, iv)
        .expect("key and IV lengths are checked by the caller");
    let mut buf = vec![0u8; ciphertext.len()];
    decryptor
        .decrypt_padded_b2b_mut::<NoPadding>(ciphertext, &mut buf)
        .expect("input is block aligned and the buffer is large enough");
    buf
}

} // verus!
