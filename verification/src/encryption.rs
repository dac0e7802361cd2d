//! Stateless cryptographic operations and the encrypted-message envelope:
//! AEAD sealing and opening of message content, content hashing, asymmetric
//! protection of session keys, and the deterministic conversation identifier.

use vstd::arithmetic::power::{lemma_pow_increases, pow};
use vstd::prelude::*;
use vstd::utf8::encode_utf8;

use crate::aead::{aead_decrypt, aead_encrypt, cipher_of};
use crate::asym::{
    rsa_generate_pair, rsa_generated_pair, rsa_import_public, rsa_pem_canon_of, rsa_public_of,
    rsa_unwrap, rsa_unwrap_of, rsa_wrap, wraps_key_for,
};
use crate::digest::{digest32_of, sha256};
use crate::encoding::{b64_decode, b64_decode_of, b64_encode, b64_of, bytes_to_string, hex_of,
    hex_encode, string_to_bytes};
use crate::entropy::{fresh_id, now_millis, random_bytes};
use crate::session_store::{cache_accepts, find_by_conversation, find_by_session, SessionEntry,
    SessionKey, SessionKeyStore};

verus! {

broadcast use vstd::utf8::encode_utf8_valid_utf8, vstd::utf8::encode_utf8_decode_utf8, vstd::utf8::decode_utf8_encode_utf8;

/// Version stamped into every envelope this codec seals.
pub const ENCRYPTION_VERSION: u32 = 1;

/// An asymmetric pair owned by one user, both halves as PEM text. The
/// private half never leaves the owner's process.
pub struct EncryptionKeyPair {
    pub private_key_pem: String,
    pub public_key_pem: String,
    pub key_id: u128,
    pub version: u32,
}

/// The on-the-wire envelope: text-encoded ciphertext, digest and nonce, the
/// codec version, and the identifier of the session key that sealed it.
#[derive(Clone)]
pub struct EncryptedMessage {
    pub encrypted_content: String,
    pub encrypted_session_key: String,
    pub content_hash: String,
    pub encryption_version: u32,
    pub nonce: String,
    pub session_key_id: u128,
}

/// Everything a cryptographic operation of this core can fail with.
#[derive(Clone, Copy, PartialEq, Eq, Structural, Debug)]
pub enum EncryptionError {
    /// The entropy source or key generator failed.
    KeyGenerationFailed,
    /// The cipher refused to seal.
    EncryptionFailed,
    /// The ciphertext, nonce or wrapped key did not authenticate or decode.
    DecryptionFailed,
    /// A public-key text did not parse.
    InvalidKeyFormat,
    /// Decryption succeeded but the content hash did not match.
    HashVerificationFailed,
    /// No cached session key under the given identifier.
    SessionKeyNotFound(u128),
    /// The envelope is structurally malformed.
    InvalidMessageFormat,
    /// The envelope names a different session key than the one offered.
    WrongKey,
    /// An unwrapped session key did not have exactly 32 bytes.
    UnwrapFailed,
    /// The durable store failed or refused during key establishment.
    KeyExchangeFailed,
}

/// The big-endian bytes of a 128-bit identifier, most significant first.
pub open spec fn u128_be_bytes(x: u128) -> Seq<u8> {
    Seq::new(16, |i: int| ((x >> (((15 - i) * 8) as u128)) & 0xff) as u8)
}

/// Writes an identifier as its sixteen big-endian bytes.
pub fn u128_to_be_bytes(x: u128) -> (r: Vec<u8>)
    ensures
        r@ == u128_be_bytes(x),
{
    let mut out: Vec<u8> = Vec::new();
    let mut i: usize = 0;
    while i < 16
        invariant
            i <= 16,
            out@.len() == i,
            forall|j: int| 0 <= j < i ==> out@[j] == u128_be_bytes(x)[j],
        decreases 16 - i,
    {
        let shift: u128 = ((15 - i) * 8) as u128;
        out.push(((x >> shift) & 0xff) as u8);
        i += 1;
    }
    proof {
        assert(out@ =~= u128_be_bytes(x));
    }
    out
}

/// The value of a big-endian byte sequence.
pub open spec fn be_val(s: Seq<u8>) -> int
    decreases s.len(),
{
    if s.len() == 0 {
        0
    } else {
        be_val(s.drop_last()) * 256 + s.last()
    }
}

/// A big-endian byte sequence is bounded by 256 to its length.
pub proof fn lemma_be_val_bounds(s: Seq<u8>)
    ensures
        0 <= be_val(s) < pow(256, s.len() as nat),
    decreases s.len(),
{
    if s.len() == 0 {
        assert(pow(256, 0) == 1) by {
            reveal_with_fuel(pow, 1);
        }
    } else {
        lemma_be_val_bounds(s.drop_last());
        assert(pow(256, s.len() as nat) == 256 * pow(256, (s.len() - 1) as nat)) by {
            reveal_with_fuel(pow, 2);
        }
    }
}

/// The version and variant adjustments that shape sixteen digest bytes into
/// a well-formed version-4 identifier.
pub open spec fn uuid_mask(b: u8, i: int) -> u8 {
    if i == 6 {
        (b & 0x0f) | 0x40
    } else if i == 8 {
        (b & 0x3f) | 0x80
    } else {
        b
    }
}

/// The first `n` digest bytes with the identifier masks applied.
pub open spec fn masked_prefix(d: Seq<u8>, n: int) -> Seq<u8> {
    Seq::new(n as nat, |j: int| uuid_mask(d[j], j))
}

/// The deterministic identifier of the conversation between two users:
/// the users' identifiers are ordered, hashed, and the digest's first
/// sixteen bytes are shaped into a version-4 identifier. Ordering first
/// makes the result the same from either side.
pub open spec fn conversation_id_spec(a: u128, b: u128) -> u128 {
    let lo = if a < b {
        a
    } else {
        b
    };
    let hi = if a < b {
        b
    } else {
        a
    };
    be_val(masked_prefix(digest32_of(u128_be_bytes(lo) + u128_be_bytes(hi)), 16)) as u128
}

/// Conversation id symmetry: both orientations of a pair of users name the
/// same conversation.
pub proof fn lemma_conversation_id_symmetric(a: u128, b: u128)
    ensures
        conversation_id_spec(a, b) == conversation_id_spec(b, a),
{
}

proof fn lemma_pow256_16()
    ensures
        pow(256, 16) == 0x100000000000000000000000000000000,
{
    reveal_with_fuel(pow, 17);
}

/// Derives the conversation identifier for two users, the same value
/// regardless of which of them asks.
pub fn create_conversation_id(user1_id: u128, user2_id: u128) -> (r: u128)
    ensures
        r == conversation_id_spec(user1_id, user2_id),
{
    let lo: u128 = if user1_id < user2_id {
        user1_id
    } else {
        user2_id
    };
    let hi: u128 = if user1_id < user2_id {
        user2_id
    } else {
        user1_id
    };
    let mut data = u128_to_be_bytes(lo);
    let mut tail = u128_to_be_bytes(hi);
    data.append(&mut tail);
    let d = sha256(&data);
    let ghost dv = d@;
    proof {
        assert(pow(256, 0) == 1) by { reveal_with_fuel(pow, 1); }
        assert(masked_prefix(dv, 0) =~= Seq::<u8>::empty());
    }
    let mut acc: u128 = 0;
    let mut i: usize = 0;
    while i < 16
        invariant
            i <= 16,
            d@ == dv,
            dv.len() == 32,
            acc == be_val(masked_prefix(dv, i as int)),
            0 <= be_val(masked_prefix(dv, i as int)) < pow(256, i as nat),
        decreases 16 - i,
    {
        let mut byte: u8 = d[i];
        if i == 6 {
            byte = (byte & 0x0f) | 0x40;
        }
        if i == 8 {
            byte = (byte & 0x3f) | 0x80;
        }
        proof {
            assert(byte == uuid_mask(dv[i as int], i as int));
            assert(masked_prefix(dv, i as int + 1).drop_last() =~= masked_prefix(dv, i as int));
            assert(masked_prefix(dv, i as int + 1).last() == uuid_mask(dv[i as int], i as int));
            lemma_pow_increases(256, i as nat, 15);
            lemma_pow256_16();
            assert(pow(256, (i + 1) as nat) == 256 * pow(256, i as nat)) by {
                reveal_with_fuel(pow, 2);
            }
            assert(pow(256, 16) == 256 * pow(256, 15)) by { reveal_with_fuel(pow, 2); }
        }
        acc = acc * 256 + (byte as u128);
        i += 1;
    }
    proof {
        lemma_be_val_bounds(masked_prefix(dv, 16));
        lemma_pow256_16();
    }
    acc
}

/// The envelope is exactly what sealing `plain` under `k` produces: the
/// base64 of the AEAD ciphertext, the hex SHA-256 of the plaintext bytes,
/// the key's nonce in base64, the key's session id, and the codec version.
pub open spec fn envelope_seals(k: SessionKey, plain: Seq<char>, env: EncryptedMessage) -> bool {
    &&& env.encrypted_content@ == b64_of(cipher_of(k.key@, k.nonce@, encode_utf8(plain)))
    &&& env.content_hash@ == hex_of(digest32_of(encode_utf8(plain)))
    &&& env.nonce@ == b64_of(k.nonce@)
    &&& env.session_key_id == k.session_id
    &&& env.encryption_version == ENCRYPTION_VERSION
}

/// The exact outcome of opening an envelope's fields with a session key.
/// The checks run in order — key id, ciphertext and nonce decodings, a
/// genuine ciphertext, valid UTF-8, the content hash — and the first one
/// that fails names the error.
pub open spec fn open_outcome(
    k: SessionKey,
    envelope_session_key_id: u128,
    content_text: Seq<char>,
    nonce_text: Seq<char>,
    hash_text: Seq<char>,
) -> Result<Seq<char>, EncryptionError> {
    if envelope_session_key_id != k.session_id {
        Err(EncryptionError::WrongKey)
    } else {
        match b64_decode_of(content_text) {
            Option::None => Err(EncryptionError::DecryptionFailed),
            Option::Some(c) => match b64_decode_of(nonce_text) {
                Option::None => Err(EncryptionError::DecryptionFailed),
                Option::Some(nb) => if nb.len() != 12 {
                    Err(EncryptionError::DecryptionFailed)
                } else if !(exists|p: Seq<u8>| c == cipher_of(k.key@, nb, p)) {
                    Err(EncryptionError::DecryptionFailed)
                } else {
                    let p = choose|p: Seq<u8>| c == cipher_of(k.key@, nb, p);
                    if !vstd::utf8::valid_utf8(p) {
                        Err(EncryptionError::DecryptionFailed)
                    } else if hex_of(digest32_of(p)) != hash_text {
                        Err(EncryptionError::HashVerificationFailed)
                    } else {
                        Ok(vstd::utf8::decode_utf8(p))
                    }
                },
            },
        }
    }
}

/// Structural well-formedness of an envelope, checkable without any key:
/// non-empty ciphertext and hash, a version of at least one, and ciphertext
/// and nonce that decode as base64.
pub fn validate_encrypted_message(message: &EncryptedMessage) -> (r: Result<(), EncryptionError>)
    ensures
        (r is Ok <==> message.encrypted_content@.len() > 0 && message.content_hash@.len() > 0
            && message.encryption_version >= 1 && b64_decode_of(message.encrypted_content@)
            is Some && b64_decode_of(message.nonce@) is Some),
        r matches Err(e) ==> e == EncryptionError::InvalidMessageFormat,
{
    if message.encrypted_content.as_str().is_empty() {
        return Err(EncryptionError::InvalidMessageFormat);
    }
    if message.content_hash.as_str().is_empty() {
        return Err(EncryptionError::InvalidMessageFormat);
    }
    if message.encryption_version == 0 {
        return Err(EncryptionError::InvalidMessageFormat);
    }
    if b64_decode(message.encrypted_content.as_str()).is_err() {
        return Err(EncryptionError::InvalidMessageFormat);
    }
    if b64_decode(message.nonce.as_str()).is_err() {
        return Err(EncryptionError::InvalidMessageFormat);
    }
    Ok(())
}

/// Stateless cryptography plus the process-local session-key cache.
pub struct EncryptionService {
    pub session_keys: SessionKeyStore,
}

impl EncryptionService {
    /// The session-key cache is well-formed.
    pub open spec fn wf(&self) -> bool {
        self.session_keys.wf()
    }

    /// A service with an empty cache.
    pub fn new() -> (r: Self)
        ensures
            r.wf(),
            r.session_keys.entries@.len() == 0,
    {
        EncryptionService { session_keys: SessionKeyStore::new() }
    }

    /// Generates a fresh 2048-bit asymmetric pair for one user.
    pub fn generate_key_pair(&self) -> (r: Result<EncryptionKeyPair, EncryptionError>)
        ensures
            (match r {
                Ok(kp) => kp.public_key_pem@ == rsa_public_of(kp.private_key_pem@)
                    && rsa_generated_pair(kp.private_key_pem@, kp.public_key_pem@)
                    && rsa_pem_canon_of(kp.public_key_pem@) == Some(kp.public_key_pem@)
                    && kp.version == 1 && kp.key_id != 0,
                Err(e) => e == EncryptionError::KeyGenerationFailed,
            }),
    {
        match rsa_generate_pair(2048) {
            Ok(p) => Ok(
                EncryptionKeyPair {
                    private_key_pem: p.private_pem,
                    public_key_pem: p.public_pem,
                    key_id: fresh_id(),
                    version: 1,
                },
            ),
            Err(()) => Err(EncryptionError::KeyGenerationFailed),
        }
    }

    /// Draws a fresh session key: 32 random key bytes and the 12 random
    /// nonce bytes that will live and be persisted together with them.
    pub fn generate_session_key(&self) -> (r: Result<SessionKey, EncryptionError>)
        ensures
            r is Ok,
            r matches Ok(k) ==> k.wf() && k.session_id != 0,
    {
        let key = random_bytes(32);
        let nonce = random_bytes(12);
        Ok(SessionKey { key, nonce, session_id: fresh_id(), created_at: now_millis() })
    }

    /// The hex SHA-256 digest of a message's text, the envelope's integrity
    /// check independent of the AEAD tag.
    pub fn generate_content_hash(&self, content: &str) -> (r: String)
        ensures
            r@ == hex_of(digest32_of(encode_utf8(content@))),
    {
        let bytes = string_to_bytes(content);
        let d = sha256(&bytes);
        hex_encode(&d)
    }

    /// Seals message text under a session key into a wire envelope.
    pub fn encrypt_message(&self, content: &str, session_key: &SessionKey) -> (r: Result<
        EncryptedMessage,
        EncryptionError,
    >)
        requires
            session_key.wf(),
        ensures
            (match r {
                Ok(env) => envelope_seals(*session_key, content@, env)
                    && env.encrypted_session_key@ == Seq::<char>::empty(),
                Err(e) => e == EncryptionError::EncryptionFailed,
            }),
            encode_utf8(content@).len() <= 0x10_0000_0000 ==> r is Ok,
    {
        let plain_bytes = string_to_bytes(content);
        let cipher_bytes = match aead_encrypt(&session_key.key, &session_key.nonce, &plain_bytes) {
            Ok(c) => c,
            Err(()) => {
                return Err(EncryptionError::EncryptionFailed);
            },
        };
        let content_hash = self.generate_content_hash(content);
        Ok(
            EncryptedMessage {
                encrypted_content: b64_encode(&cipher_bytes),
                encrypted_session_key: String::new(),
                content_hash,
                encryption_version: ENCRYPTION_VERSION,
                nonce: b64_encode(&session_key.nonce),
                session_key_id: session_key.session_id,
            },
        )
    }

    /// Opens an envelope with a session key, decrypting under the nonce the
    /// envelope itself carries. The result is exactly `open_outcome` of the
    /// envelope's fields: each failing check yields its own error, an
    /// envelope that passes them all opens, and — the round trip, stated by
    /// the final clause — an envelope sealed from `plain` under this key
    /// opens to exactly `plain`. An `Ok` result always authenticates against
    /// the envelope's own ciphertext and hash, so opening never hands back
    /// altered content.
    pub fn decrypt_message(&self, encrypted_message: &EncryptedMessage, session_key: &SessionKey)
        -> (r: Result<String, EncryptionError>)
        requires
            session_key.wf(),
        ensures
            (match r {
                Ok(p) => open_outcome(
                    *session_key,
                    encrypted_message.session_key_id,
                    encrypted_message.encrypted_content@,
                    encrypted_message.nonce@,
                    encrypted_message.content_hash@,
                ) == Ok::<Seq<char>, EncryptionError>(p@),
                Err(e) => open_outcome(
                    *session_key,
                    encrypted_message.session_key_id,
                    encrypted_message.encrypted_content@,
                    encrypted_message.nonce@,
                    encrypted_message.content_hash@,
                ) == Err::<Seq<char>, EncryptionError>(e),
            }),
            forall|plain: Seq<char>|
                envelope_seals(*session_key, plain, *encrypted_message) ==> (r matches Ok(p)
                    && p@ == plain),
    {
        if encrypted_message.session_key_id != session_key.session_id {
            return Err(EncryptionError::WrongKey);
        }
        let cipher_bytes = match b64_decode(encrypted_message.encrypted_content.as_str()) {
            Ok(c) => c,
            Err(()) => {
                return Err(EncryptionError::DecryptionFailed);
            },
        };
        let nonce_bytes = match b64_decode(encrypted_message.nonce.as_str()) {
            Ok(n) => n,
            Err(()) => {
                return Err(EncryptionError::DecryptionFailed);
            },
        };
        if nonce_bytes.len() != 12 {
            return Err(EncryptionError::DecryptionFailed);
        }
        let plain_bytes = match aead_decrypt(&session_key.key, &nonce_bytes, &cipher_bytes) {
            Ok(p) => p,
            Err(()) => {
                return Err(EncryptionError::DecryptionFailed);
            },
        };
        let content = match bytes_to_string(plain_bytes) {
            Ok(s) => s,
            Err(()) => {
                return Err(EncryptionError::DecryptionFailed);
            },
        };
        let expected_hash = self.generate_content_hash(content.as_str());
        if !expected_hash.eq(&encrypted_message.content_hash) {
            return Err(EncryptionError::HashVerificationFailed);
        }
        Ok(content)
    }

    /// Wraps a session key's raw bytes for one recipient under that
    /// recipient's public key.
    pub fn encrypt_session_key(&self, session_key: &SessionKey, public_key_pem: &str) -> (r:
        Result<String, EncryptionError>)
        ensures
            (match r {
                Ok(w) => exists|wb: Seq<u8>|
                    b64_decode_of(w@) == Some(wb) && wraps_key_for(
                        public_key_pem@,
                        session_key.key@,
                        wb,
                    ),
                Err(e) => e == EncryptionError::EncryptionFailed,
            }),
    {
        match rsa_wrap(public_key_pem, &session_key.key) {
            Ok(w) => Ok(b64_encode(&w)),
            Err(()) => Err(EncryptionError::EncryptionFailed),
        }
    }

    /// Recovers a session key's raw bytes from their wrapped form with the
    /// recipient's private key; a payload of any length other than 32 bytes
    /// is refused.
    pub fn decrypt_session_key(&self, encrypted_session_key: &str, private_key_pem: &str) -> (r:
        Result<Vec<u8>, EncryptionError>)
        ensures
            (match b64_decode_of(encrypted_session_key@) {
                Option::None => r == Err::<Vec<u8>, EncryptionError>(
                    EncryptionError::DecryptionFailed,
                ),
                Option::Some(wb) => (match rsa_unwrap_of(private_key_pem@, wb) {
                    Option::None => r == Err::<Vec<u8>, EncryptionError>(
                        EncryptionError::DecryptionFailed,
                    ),
                    Option::Some(raw) => if raw.len() == 32 {
                        r matches Ok(v) && v@ == raw
                    } else {
                        r == Err::<Vec<u8>, EncryptionError>(EncryptionError::UnwrapFailed)
                    },
                }),
            }),
    {
        let wrapped = match b64_decode(encrypted_session_key) {
            Ok(w) => w,
            Err(()) => {
                return Err(EncryptionError::DecryptionFailed);
            },
        };
        let raw = match rsa_unwrap(private_key_pem, &wrapped) {
            Ok(p) => p,
            Err(()) => {
                return Err(EncryptionError::DecryptionFailed);
            },
        };
        if raw.len() != 32 {
            return Err(EncryptionError::UnwrapFailed);
        }
        Ok(raw)
    }

    /// Caches a session key under its conversation. Re-caching the session
    /// that already sits there is a no-op; a conflicting key is refused.
    pub fn store_session_key(&mut self, conversation_id: u128, session_key: SessionKey) -> (r:
        Result<(), EncryptionError>)
        requires
            old(self).wf(),
            session_key.wf(),
        ensures
            final(self).wf(),
            (match r {
                Ok(()) => cache_accepts(
                    old(self).session_keys.entries@,
                    conversation_id,
                    session_key.session_id,
                ) && (match find_by_conversation(old(self).session_keys.entries@, conversation_id) {
                    Some(_) => final(self).session_keys.entries@ == old(self).session_keys.entries@,
                    None => final(self).session_keys.entries@ == old(self).session_keys.entries@.push(
                        (SessionEntry { conversation_id, key: session_key }),
                    ),
                }),
                Err(e) => e == EncryptionError::KeyExchangeFailed && !cache_accepts(
                    old(self).session_keys.entries@,
                    conversation_id,
                    session_key.session_id,
                ) && final(self).session_keys.entries@ == old(self).session_keys.entries@,
            }),
    {
        if self.session_keys.insert(conversation_id, session_key) {
            Ok(())
        } else {
            Err(EncryptionError::KeyExchangeFailed)
        }
    }

    /// The cached session key with a given identifier, if any.
    pub fn get_session_key(&self, session_id: u128) -> (r: Option<&SessionKey>)
        ensures
            (match r {
                Some(k) => find_by_session(self.session_keys.entries@, session_id) == Some(*k),
                None => find_by_session(self.session_keys.entries@, session_id) is None,
            }),
    {
        self.session_keys.get_by_session(session_id)
    }

    /// The public half of a pair in its textual form. With keys handled as
    /// PEM text this is the identity on the stored text.
    pub fn export_public_key_pem(&self, public_key_pem: &str) -> (r: Result<
        String,
        EncryptionError,
    >)
        ensures
            r matches Ok(s) && s@ == public_key_pem@,
    {
        Ok(public_key_pem.to_owned())
    }

    /// Parses a public-key PEM received from outside and returns it in
    /// canonical form; importing an exported key returns it unchanged.
    pub fn import_public_key_pem(&self, pem: &str) -> (r: Result<String, EncryptionError>)
        ensures
            (match r {
                Ok(s) => rsa_pem_canon_of(pem@) == Some(s@) && rsa_pem_canon_of(s@) == Some(s@),
                Err(e) => e == EncryptionError::InvalidKeyFormat && rsa_pem_canon_of(pem@)
                    is None,
            }),
    {
        match rsa_import_public(pem) {
            Ok(s) => Ok(s),
            Err(()) => Err(EncryptionError::InvalidKeyFormat),
        }
    }
}

} // verus!
