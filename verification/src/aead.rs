//! Authenticated encryption of message content with AES-256-GCM under a
//! conversation's session key and nonce.

use aes_gcm::aead::Aead;
use aes_gcm::KeyInit;
use vstd::prelude::*;

verus! {

/// The AES-256-GCM ciphertext (encrypted bytes with the appended tag) for a
/// 32-byte key, a 12-byte nonce, and a plaintext. With the nonce fixed, the
/// cipher is a deterministic function of these three inputs.
pub uninterp spec fn cipher_of(key: Seq<u8>, nonce: Seq<u8>, plain: Seq<u8>) -> Seq<u8>;

/// Relies on `aes_gcm::Aes256Gcm::encrypt`: deterministic in key, nonce and
/// plaintext, and refused only for a plaintext longer than 2^36 bytes.
#[verifier::external_body]
pub(crate) fn aead_encrypt(key: &Vec<u8>, nonce: &Vec<u8>, plain: &Vec<u8>) -> (r: Result<Vec<u8>, ()>)
    requires
        key@.len() == 32,
        nonce@.len() == 12,
    ensures
        r matches Ok(c) ==> c@ == cipher_of(key@, nonce@, plain@),
        plain@.len() <= 0x10_0000_0000 ==> r is Ok,
{
    let cipher = aes_gcm::Aes256Gcm::new(aes_gcm::Key::<aes_gcm::Aes256Gcm>::from_slice(
        key.as_slice(),
    ));
    match cipher.encrypt(aes_gcm::Nonce::from_slice(nonce.as_slice()), plain.as_slice()) {
        Ok(c) => Ok(c),
        Err(_) => Err(()),
    }
}

/// Relies on `aes_gcm::Aes256Gcm::decrypt`: under a given key and nonce it
/// accepts exactly the ciphertexts that `encrypt` produces, and returns the
/// plaintext that was encrypted.
#[verifier::external_body]
pub(crate) fn aead_decrypt(key: &Vec<u8>, nonce: &Vec<u8>, cipher_text: &Vec<u8>) -> (r: Result<
    Vec<u8>,
    (),
>)
    requires
        key@.len() == 32,
        nonce@.len() == 12,
    ensures
        (match r {
            Ok(q) => cipher_text@ == cipher_of(key@, nonce@, q@) && (forall|p: Seq<u8>|
                cipher_text@ == cipher_of(key@, nonce@, p) ==> p == q@),
            Err(()) => forall|p: Seq<u8>| cipher_text@ != cipher_of(key@, nonce@, p),
        }),
{
    let cipher = aes_gcm::Aes256Gcm::new(aes_gcm::Key::<aes_gcm::Aes256Gcm>::from_slice(
        key.as_slice(),
    ));
    match cipher.decrypt(aes_gcm::Nonce::from_slice(nonce.as_slice()), cipher_text.as_slice()) {
        Ok(p) => Ok(p),
        Err(_) => Err(()),
    }
}

} // verus!
