//! Asymmetric protection of session keys: RSA key pairs handled as PEM text,
//! and PKCS#1 v1.5 wrapping of the raw 32-byte symmetric key per recipient.

use rsa::pkcs8::{DecodePrivateKey, DecodePublicKey, EncodePrivateKey, EncodePublicKey};
use vstd::prelude::*;

verus! {

/// The canonical public-key PEM derived from a private-key PEM: parse the
/// private key, take its public half, encode it. Deterministic in the text.
pub uninterp spec fn rsa_public_of(private_pem: Seq<char>) -> Seq<char>;

/// What RSA PKCS#1 v1.5 decryption under a private-key PEM returns for a
/// ciphertext: `Some(payload)` on genuine ciphertexts, `None` where the PEM
/// does not parse or the padding check fails. Deterministic in both inputs.
pub uninterp spec fn rsa_unwrap_of(private_pem: Seq<char>, wrapped: Seq<u8>) -> Option<Seq<u8>>;

/// Re-encoding of a public-key PEM after a parse: `Some` exactly on
/// well-formed public-key PEM text, and idempotent on its own output.
pub uninterp spec fn rsa_pem_canon_of(pem: Seq<char>) -> Option<Seq<char>>;

/// The two texts are the halves of one generated RSA pair.
pub uninterp spec fn rsa_generated_pair(private_pem: Seq<char>, public_pem: Seq<char>) -> bool;

/// `wrapped` is an RSA wrapping of `raw` for the holder of `public_pem`:
/// the private half of any generated pair with this public half recovers
/// exactly `raw`.
pub open spec fn wraps_key_for(public_pem: Seq<char>, raw: Seq<u8>, wrapped: Seq<u8>) -> bool {
    forall|private_pem: Seq<char>|
        rsa_generated_pair(private_pem, public_pem) ==> #[trigger] rsa_unwrap_of(
            private_pem,
            wrapped,
        ) == Some(raw)
}

/// A freshly generated RSA pair, both halves as PEM text.
pub struct GeneratedPair {
    pub private_pem: String,
    pub public_pem: String,
}

/// Relies on `rsa::RsaPrivateKey::new`, `rsa::RsaPublicKey::from`, and the
/// pkcs8 PEM encoders: a fresh pair whose public half is derived from the
/// private half, emitted in the encoders' canonical form.
#[verifier::external_body]
pub(crate) fn rsa_generate_pair(bits: usize) -> (r: Result<GeneratedPair, ()>)
    ensures
        r matches Ok(p) ==> p.public_pem@ == rsa_public_of(p.private_pem@),
        r matches Ok(p) ==> rsa_generated_pair(p.private_pem@, p.public_pem@),
        r matches Ok(p) ==> rsa_pem_canon_of(p.public_pem@) == Some(p.public_pem@),
{
    let private_key = match rsa::RsaPrivateKey::new(&mut rand::rngs::OsRng, bits) {
        Ok(k) => k,
        Err(_) => return Err(()),
    };
    let public_key = rsa::RsaPublicKey::from(&private_key);
    let private_pem = match private_key.to_pkcs8_pem(rsa::pkcs8::LineEnding::LF) {
        Ok(p) => p.as_str().to_owned(),
        Err(_) => return Err(()),
    };
    let public_pem = match public_key.to_public_key_pem(rsa::pkcs8::LineEnding::LF) {
        Ok(p) => p,
        Err(_) => return Err(()),
    };
    Ok(GeneratedPair { private_pem, public_pem })
}

/// Relies on `rsa::RsaPublicKey::encrypt` with `Pkcs1v15Encrypt`: the
/// encryption is randomized, but every ciphertext it returns decrypts to the
/// payload under the private half of any generated pair with this public
/// half.
#[verifier::external_body]
pub(crate) fn rsa_wrap(public_pem: &str, raw: &Vec<u8>) -> (r: Result<Vec<u8>, ()>)
    ensures
        r matches Ok(w) ==> wraps_key_for(public_pem@, raw@, w@),
{
    let key = match rsa::RsaPublicKey::from_public_key_pem(public_pem) {
        Ok(k) => k,
        Err(_) => return Err(()),
    };
    match key.encrypt(&mut rand::rngs::OsRng, rsa::Pkcs1v15Encrypt, raw.as_slice()) {
        Ok(w) => Ok(w),
        Err(_) => Err(()),
    }
}

/// Relies on `rsa::RsaPrivateKey::decrypt` with `Pkcs1v15Encrypt`:
/// deterministic in the private key and the ciphertext; fails where the PEM
/// does not parse or the padding check rejects the ciphertext.
#[verifier::external_body]
pub(crate) fn rsa_unwrap(private_pem: &str, wrapped: &Vec<u8>) -> (r: Result<Vec<u8>, ()>)
    ensures
        (match r {
            Ok(p) => rsa_unwrap_of(private_pem@, wrapped@) == Some(p@),
            Err(()) => rsa_unwrap_of(private_pem@, wrapped@) is None,
        }),
{
    let key = match rsa::RsaPrivateKey::from_pkcs8_pem(private_pem) {
        Ok(k) => k,
        Err(_) => return Err(()),
    };
    match key.decrypt(rsa::Pkcs1v15Encrypt, wrapped.as_slice()) {
        Ok(p) => Ok(p),
        Err(_) => Err(()),
    }
}

/// Relies on the pkcs8 public-key PEM parser and re-encoder: parsing succeeds
/// exactly on well-formed public-key PEM, and re-encoding its own output
/// returns it unchanged.
#[verifier::external_body]
pub(crate) fn rsa_import_public(pem: &str) -> (r: Result<String, ()>)
    ensures
        (match r {
            Ok(s) => rsa_pem_canon_of(pem@) == Some(s@) && rsa_pem_canon_of(s@) == Some(s@),
            Err(()) => rsa_pem_canon_of(pem@) is None,
        }),
{
    let key = match rsa::RsaPublicKey::from_public_key_pem(pem) {
        Ok(k) => k,
        Err(_) => return Err(()),
    };
    match key.to_public_key_pem(rsa::pkcs8::LineEnding::LF) {
        Ok(s) => Ok(s),
        Err(_) => Err(()),
    }
}

/// Wrap/unwrap fidelity: a wrapped session key recovered with the matching
/// private key yields exactly the original key bytes.
pub proof fn lemma_wrap_unwrap_fidelity(
    private_pem: Seq<char>,
    public_pem: Seq<char>,
    raw: Seq<u8>,
    wrapped: Seq<u8>,
)
    requires
        rsa_generated_pair(private_pem, public_pem),
        wraps_key_for(public_pem, raw, wrapped),
    ensures
        rsa_unwrap_of(private_pem, wrapped) == Some(raw),
{
}

} // verus!
