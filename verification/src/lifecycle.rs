//! Conversation session lifecycle: exactly-once establishment of a session
//! key per conversation, adoption of keys another replica created, and the
//! send and receive paths built on the envelope codec.
//!
//! The durable store is an external collaborator. Each step here is a pure
//! decision over the caller's state and the store's answer: the caller runs
//! `begin_key_exchange`, and on a miss queries the store inside a
//! per-conversation critical section, then either adopts the record it
//! found or writes the one `prepare_new_session` built with an atomic
//! create-unique and commits it. A create conflict means another writer
//! won; the caller re-reads and adopts. That conditional create, not the
//! in-process lock, is what makes creation exactly-once across replicas.

use vstd::prelude::*;
use vstd::utf8::encode_utf8;

use crate::aead::cipher_of;
use crate::asym::rsa_unwrap_of;
use crate::digest::digest32_of;
use crate::encoding::{b64_decode, b64_decode_of, b64_encode, b64_of, hex_of};
use crate::encryption::{
    conversation_id_spec, envelope_seals, lemma_conversation_id_symmetric, open_outcome,
    EncryptedMessage, EncryptionError, EncryptionKeyPair, EncryptionService, ENCRYPTION_VERSION,
};
use crate::messages::{DecryptedMessage, Message};
use crate::session_store::{
    cache_accepts, clone_session_key, find_by_conversation, find_by_session, key_eq,
    lemma_find_conversation_is_entry, lemma_find_session_is_entry, SessionEntry, SessionKey,
};

verus! {

/// Durable record of one conversation's session, created exactly once by
/// whichever participant sends first. The raw key appears only wrapped,
/// once per participant; the nonce is not secret and travels alongside.
#[derive(Clone)]
pub struct ConversationSessionRecord {
    pub conversation_id: u128,
    /// The smaller of the two participants' identifiers.
    pub user_a: u128,
    /// The larger of the two participants' identifiers.
    pub user_b: u128,
    pub wrapped_key_for_a: String,
    pub wrapped_key_for_b: String,
    pub nonce: String,
    pub session_key_id: u128,
    pub is_active: bool,
    pub created_at: i64,
    pub last_used_at: i64,
}

/// Derives the deterministic identifier of the conversation between two
/// users, the same from either side.
pub fn create_conversation_id(user1_id: u128, user2_id: u128) -> (r: u128)
    ensures
        r == conversation_id_spec(user1_id, user2_id),
{
    crate::encryption::create_conversation_id(user1_id, user2_id)
}

/// The first step of get-or-create: either the cache already holds the
/// conversation's key, or the durable store must be consulted.
pub enum KeyLookup {
    CacheHit(SessionKey),
    NeedRecord { conversation_id: u128 },
}

/// What the lock-free lookup step decides, as a function of the cache.
pub open spec fn key_lookup_spec(s: Seq<SessionEntry>, user1_id: u128, user2_id: u128) -> KeyLookup {
    let c = conversation_id_spec(user1_id, user2_id);
    match find_by_conversation(s, c) {
        Some(k) => KeyLookup::CacheHit(k),
        None => KeyLookup::NeedRecord { conversation_id: c },
    }
}

/// Single-flight creation: once the cache holds a key for the conversation
/// of two users, every further lookup — from either side — is a cache hit
/// on that same key, so no second key is ever created for it in this
/// process.
pub proof fn lemma_single_flight(s: Seq<SessionEntry>, a: u128, b: u128, k: SessionKey)
    requires
        find_by_conversation(s, conversation_id_spec(a, b)) == Some(k),
    ensures
        key_lookup_spec(s, a, b) == KeyLookup::CacheHit(k),
        key_lookup_spec(s, b, a) == KeyLookup::CacheHit(k),
{
    lemma_conversation_id_symmetric(a, b);
}

/// A fresh session prepared but not yet committed: the durable record to
/// create atomically, and the key it wraps.
pub struct PendingSession {
    pub record: ConversationSessionRecord,
    pub key: SessionKey,
}

/// The text is base64 of an RSA wrapping of `raw` for `public_pem`'s holder.
pub open spec fn wrapped_entry(text: Seq<char>, public_pem: Seq<char>, raw: Seq<u8>) -> bool {
    exists|wb: Seq<u8>|
        b64_decode_of(text) == Some(wb) && crate::asym::wraps_key_for(public_pem, raw, wb)
}

/// The wrapped-key text a record holds for one of its participants.
pub open spec fn record_wrapped_for(record: ConversationSessionRecord, caller: u128) -> Seq<char> {
    if caller == record.user_a {
        record.wrapped_key_for_a@
    } else {
        record.wrapped_key_for_b@
    }
}

/// A sealed message ready to leave the process: persist it, and forward it
/// if the registry has a live handle for the receiver.
pub struct OutboundMessage {
    pub sender_id: u128,
    pub receiver_id: u128,
    pub envelope: EncryptedMessage,
}

/// A user's generated key material and the durable record of its public
/// half; the private half stays with the caller.
pub struct UserKeyRecord {
    pub user_id: u128,
    pub public_key_pem: String,
    pub key_version: u32,
    pub created_at: i64,
}

/// The message's stored fields are exactly what sealing `plain` under `k`
/// produces.
pub open spec fn message_seals(k: SessionKey, plain: Seq<char>, m: Message) -> bool {
    &&& m.encrypted_content@ == b64_of(cipher_of(k.key@, k.nonce@, encode_utf8(plain)))
    &&& m.content_hash@ == hex_of(digest32_of(encode_utf8(plain)))
    &&& m.nonce@ == b64_of(k.nonce@)
    &&& m.session_key_id == k.session_id
    &&& m.encryption_version == ENCRYPTION_VERSION
}

/// The cache can open the stored message: the key it names is cached and
/// its envelope was sealed from `plain` under that key.
pub open spec fn message_sealed_with(s: Seq<SessionEntry>, m: Message, plain: Seq<char>) -> bool {
    exists|k: SessionKey| find_by_session(s, m.session_key_id) == Some(k) && message_seals(k, plain, m)
}

/// Every stored message among the first `upto` that was genuinely sealed
/// under a cached key appears decrypted in the batch result.
pub open spec fn batch_complete(
    s: Seq<SessionEntry>,
    msgs: Seq<Message>,
    outs: Seq<DecryptedMessage>,
    upto: int,
) -> bool {
    forall|i: int, plain: Seq<char>|
        #![trigger message_sealed_with(s, msgs[i], plain)]
        0 <= i < upto && message_sealed_with(s, msgs[i], plain) ==> exists|j: int|
            0 <= j < outs.len() && (#[trigger] outs[j]).id == msgs[i].id && outs[j].content@
                == plain
}

/// What opening a stored message with the cache yields, if anything: the
/// key the message names must be cached, and `open_outcome` over the
/// message's own envelope fields must accept.
pub open spec fn message_outcome(s: Seq<SessionEntry>, m: Message) -> Option<Seq<char>> {
    match find_by_session(s, m.session_key_id) {
        Option::None => None,
        Option::Some(k) => match open_outcome(
            k,
            m.session_key_id,
            m.encrypted_content@,
            m.nonce@,
            m.content_hash@,
        ) {
            Ok(content) => Some(content),
            Err(_) => None,
        },
    }
}

/// The batch result, in fetch order: each message that opens contributes
/// exactly one entry pairing it with its text, and the rest are skipped.
pub open spec fn receive_plan(s: Seq<SessionEntry>, msgs: Seq<Message>) -> Seq<(Message, Seq<char>)>
    decreases msgs.len(),
{
    if msgs.len() == 0 {
        Seq::empty()
    } else {
        let rest = receive_plan(s, msgs.drop_last());
        match message_outcome(s, msgs.last()) {
            Option::Some(content) => rest.push((msgs.last(), content)),
            Option::None => rest,
        }
    }
}

/// Both absent, or both present with the same text.
pub open spec fn option_text_eq(a: Option<String>, b: Option<String>) -> bool {
    match a {
        Option::Some(x) => b matches Some(y) && x@ == y@,
        Option::None => b is None,
    }
}

/// `d` carries `m`'s fields, with `content` as the opened text.
pub open spec fn decrypted_matches(m: Message, content: Seq<char>, d: DecryptedMessage) -> bool {
    &&& d.id == m.id
    &&& d.sender_id == m.sender_id
    &&& d.receiver_id == m.receiver_id
    &&& d.content@ == content
    &&& d.message_type == m.message_type
    &&& d.is_read == m.is_read
    &&& option_text_eq(d.file_url, m.file_url)
    &&& d.file_size == m.file_size
    &&& option_text_eq(d.mime_type, m.mime_type)
    &&& d.created_at == m.created_at
    &&& d.updated_at == m.updated_at
}

/// The batch result is exactly the plan: one output per message that opens,
/// in fetch order, each carrying its source's fields and opened text.
pub open spec fn batch_exact(
    s: Seq<SessionEntry>,
    msgs: Seq<Message>,
    outs: Seq<DecryptedMessage>,
) -> bool {
    &&& outs.len() == receive_plan(s, msgs).len()
    &&& (forall|j: int|
        0 <= j < outs.len() ==> decrypted_matches(
            (#[trigger] receive_plan(s, msgs)[j]).0,
            receive_plan(s, msgs)[j].1,
            outs[j],
        ))
}

/// Orchestrates encrypted messaging: the session-key lifecycle over the
/// external store, and sealing and opening of message content.
pub struct EncryptedMessagingService {
    pub encryption_service: EncryptionService,
}

impl EncryptedMessagingService {
    /// The session-key cache, as the contracts see it.
    pub open spec fn cache(&self) -> Seq<SessionEntry> {
        self.encryption_service.session_keys.entries@
    }

    /// The cache is well-formed.
    pub open spec fn wf(&self) -> bool {
        self.encryption_service.wf()
    }

    /// A service with an empty key cache.
    pub fn new() -> (r: Self)
        ensures
            r.wf(),
            r.cache().len() == 0,
    {
        EncryptedMessagingService { encryption_service: EncryptionService::new() }
    }

    /// The lock-free first step of get-or-create: a cache hit returns the
    /// conversation's key at once; otherwise the caller must enter the
    /// conversation's critical section and consult the store.
    pub fn begin_key_exchange(&self, user1_id: u128, user2_id: u128) -> (r: KeyLookup)
        ensures
            (match r {
                KeyLookup::CacheHit(k) => key_lookup_spec(self.cache(), user1_id, user2_id)
                    matches KeyLookup::CacheHit(k0) && key_eq(k, k0),
                KeyLookup::NeedRecord { conversation_id } => key_lookup_spec(
                    self.cache(),
                    user1_id,
                    user2_id,
                ) == (KeyLookup::NeedRecord { conversation_id }),
            }),
    {
        let conversation_id = crate::encryption::create_conversation_id(user1_id, user2_id);
        match self.encryption_service.session_keys.get_by_conversation(conversation_id) {
            Some(k) => KeyLookup::CacheHit(clone_session_key(k)),
            None => KeyLookup::NeedRecord { conversation_id },
        }
    }

    /// Builds everything a new conversation session needs: a fresh key,
    /// wrapped once for each participant under that participant's public
    /// key, and the record the caller must then write with an atomic
    /// create-unique on the conversation id.
    pub fn prepare_new_session(
        &self,
        user1_id: u128,
        user2_id: u128,
        public_pem_1: &str,
        public_pem_2: &str,
    ) -> (r: Result<PendingSession, EncryptionError>)
        ensures
            (match r {
                Ok(p) => {
                    &&& p.key.wf()
                    &&& p.record.conversation_id == conversation_id_spec(user1_id, user2_id)
                    &&& p.record.session_key_id == p.key.session_id
                    &&& p.record.is_active
                    &&& p.record.user_a <= p.record.user_b
                    &&& b64_decode_of(p.record.nonce@) == Some(p.key.nonce@)
                    &&& (if user2_id < user1_id {
                        p.record.user_a == user2_id && p.record.user_b == user1_id
                            && wrapped_entry(p.record.wrapped_key_for_a@, public_pem_2@, p.key.key@)
                            && wrapped_entry(p.record.wrapped_key_for_b@, public_pem_1@, p.key.key@)
                    } else {
                        p.record.user_a == user1_id && p.record.user_b == user2_id
                            && wrapped_entry(p.record.wrapped_key_for_a@, public_pem_1@, p.key.key@)
                            && wrapped_entry(p.record.wrapped_key_for_b@, public_pem_2@, p.key.key@)
                    })
                },
                Err(e) => e == EncryptionError::EncryptionFailed,
            }),
    {
        let conversation_id = crate::encryption::create_conversation_id(user1_id, user2_id);
        let key = match self.encryption_service.generate_session_key() {
            Ok(k) => k,
            Err(e) => {
                return Err(EncryptionError::EncryptionFailed);
            },
        };
        let swap: bool = user2_id < user1_id;
        let user_a: u128 = if swap {
            user2_id
        } else {
            user1_id
        };
        let user_b: u128 = if swap {
            user1_id
        } else {
            user2_id
        };
        let pem_a: &str = if swap {
            public_pem_2
        } else {
            public_pem_1
        };
        let pem_b: &str = if swap {
            public_pem_1
        } else {
            public_pem_2
        };
        let wrapped_key_for_a = match self.encryption_service.encrypt_session_key(&key, pem_a) {
            Ok(w) => w,
            Err(e) => {
                return Err(EncryptionError::EncryptionFailed);
            },
        };
        let wrapped_key_for_b = match self.encryption_service.encrypt_session_key(&key, pem_b) {
            Ok(w) => w,
            Err(e) => {
                return Err(EncryptionError::EncryptionFailed);
            },
        };
        let nonce_text = b64_encode(&key.nonce);
        let record = ConversationSessionRecord {
            conversation_id,
            user_a,
            user_b,
            wrapped_key_for_a,
            wrapped_key_for_b,
            nonce: nonce_text,
            session_key_id: key.session_id,
            is_active: true,
            created_at: key.created_at,
            last_used_at: key.created_at,
        };
        Ok(PendingSession { record, key })
    }

    /// Commits a prepared session after the store accepted its atomic
    /// create: caches the key and hands it to the caller.
    pub fn commit_new_session(&mut self, pending: PendingSession) -> (r: Result<
        SessionKey,
        EncryptionError,
    >)
        requires
            old(self).wf(),
            pending.key.wf(),
        ensures
            final(self).wf(),
            (match r {
                Ok(k) => {
                    &&& key_eq(k, pending.key)
                    &&& cache_accepts(
                        old(self).cache(),
                        pending.record.conversation_id,
                        pending.key.session_id,
                    )
                    &&& (match find_by_conversation(
                        old(self).cache(),
                        pending.record.conversation_id,
                    ) {
                        Some(_) => final(self).cache() == old(self).cache(),
                        None => final(self).cache() == old(self).cache().push(
                            (SessionEntry {
                                conversation_id: pending.record.conversation_id,
                                key: pending.key,
                            }),
                        ),
                    })
                },
                Err(e) => e == EncryptionError::KeyExchangeFailed && !cache_accepts(
                    old(self).cache(),
                    pending.record.conversation_id,
                    pending.key.session_id,
                ) && final(self).cache() == old(self).cache(),
            }),
    {
        let returned = clone_session_key(&pending.key);
        match self.encryption_service.store_session_key(
            pending.record.conversation_id,
            pending.key,
        ) {
            Ok(()) => Ok(returned),
            Err(e) => Err(e),
        }
    }

    /// Adopts the session another writer created: picks the wrapped key for
    /// the calling participant, unwraps it with the caller's private key,
    /// rebuilds the session key with the record's nonce, and caches it.
    pub fn adopt_stored_session(
        &mut self,
        caller_id: u128,
        private_key_pem: &str,
        record: &ConversationSessionRecord,
    ) -> (r: Result<SessionKey, EncryptionError>)
        requires
            old(self).wf(),
        ensures
            final(self).wf(),
            (if caller_id != record.user_a && caller_id != record.user_b {
                r == Err::<SessionKey, EncryptionError>(EncryptionError::WrongKey) && final(self).cache() == old(self).cache()
            } else {
                match b64_decode_of(record_wrapped_for(*record, caller_id)) {
                    Option::None => r == Err::<SessionKey, EncryptionError>(
                        EncryptionError::DecryptionFailed,
                    ) && final(self).cache() == old(self).cache(),
                    Option::Some(wb) => (match rsa_unwrap_of(private_key_pem@, wb) {
                        Option::None => r == Err::<SessionKey, EncryptionError>(
                            EncryptionError::DecryptionFailed,
                        ) && final(self).cache() == old(self).cache(),
                        Option::Some(raw) => if raw.len() != 32 {
                            r == Err::<SessionKey, EncryptionError>(EncryptionError::UnwrapFailed)
                                && final(self).cache() == old(self).cache()
                        } else {
                            match b64_decode_of(record.nonce@) {
                                Option::None => r == Err::<SessionKey, EncryptionError>(
                                    EncryptionError::InvalidMessageFormat,
                                ) && final(self).cache() == old(self).cache(),
                                Option::Some(nb) => if nb.len() != 12 {
                                    r == Err::<SessionKey, EncryptionError>(
                                        EncryptionError::InvalidMessageFormat,
                                    ) && final(self).cache() == old(self).cache()
                                } else if cache_accepts(
                                    old(self).cache(),
                                    record.conversation_id,
                                    record.session_key_id,
                                ) {
                                    (r matches Ok(k) && k.wf() && k.key@ == raw && k.nonce@ == nb
                                        && k.session_id == record.session_key_id && k.created_at
                                        == record.created_at) && (match find_by_conversation(
                                        old(self).cache(),
                                        record.conversation_id,
                                    ) {
                                        Some(_) => final(self).cache() == old(self).cache(),
                                        None => exists|k0: SessionKey|
                                            k0.key@ == raw && k0.nonce@ == nb && k0.session_id
                                                == record.session_key_id && k0.created_at
                                                == record.created_at && final(self).cache() == old(self).cache().push(
                                                (SessionEntry {
                                                    conversation_id: record.conversation_id,
                                                    key: k0,
                                                }),
                                            ),
                                    })
                                } else {
                                    r == Err::<SessionKey, EncryptionError>(
                                        EncryptionError::KeyExchangeFailed,
                                    ) && final(self).cache() == old(self).cache()
                                },
                            }
                        },
                    }),
                }
            }),
    {
        if caller_id != record.user_a && caller_id != record.user_b {
            return Err(EncryptionError::WrongKey);
        }
        let wrapped_text: &String = if caller_id == record.user_a {
            &record.wrapped_key_for_a
        } else {
            &record.wrapped_key_for_b
        };
        let raw = match self.encryption_service.decrypt_session_key(
            wrapped_text.as_str(),
            private_key_pem,
        ) {
            Ok(raw) => raw,
            Err(e) => {
                return Err(e);
            },
        };
        let nonce = match b64_decode(record.nonce.as_str()) {
            Ok(n) => n,
            Err(()) => {
                return Err(EncryptionError::InvalidMessageFormat);
            },
        };
        if nonce.len() != 12 {
            return Err(EncryptionError::InvalidMessageFormat);
        }
        let key = SessionKey {
            key: raw,
            nonce,
            session_id: record.session_key_id,
            created_at: record.created_at,
        };
        let returned = clone_session_key(&key);
        match self.encryption_service.store_session_key(record.conversation_id, key) {
            Ok(()) => Ok(returned),
            Err(e) => Err(e),
        }
    }

    /// The cached key with a given identifier; a miss is terminal for this
    /// process, since recovering the durable record needs the participant's
    /// private key.
    pub fn resolve_key(&self, session_key_id: u128) -> (r: Result<&SessionKey, EncryptionError>)
        ensures
            (match r {
                Ok(k) => find_by_session(self.cache(), session_key_id) == Some(*k),
                Err(e) => e == EncryptionError::SessionKeyNotFound(session_key_id)
                    && find_by_session(self.cache(), session_key_id) is None,
            }),
    {
        match self.encryption_service.get_session_key(session_key_id) {
            Some(k) => Ok(k),
            None => Err(EncryptionError::SessionKeyNotFound(session_key_id)),
        }
    }

    /// Seals one message for a conversation whose key is already cached;
    /// the caller persists the envelope and routes it if the receiver is
    /// live. Establishing the key on first contact is the key-exchange
    /// steps' job.
    pub fn send_encrypted_message(
        &self,
        sender_id: u128,
        receiver_id: u128,
        plaintext_content: &str,
    ) -> (r: Result<OutboundMessage, EncryptionError>)
        requires
            self.wf(),
        ensures
            (match find_by_conversation(
                self.cache(),
                conversation_id_spec(sender_id, receiver_id),
            ) {
                Option::None => r == Err::<OutboundMessage, EncryptionError>(
                    EncryptionError::SessionKeyNotFound(
                        conversation_id_spec(sender_id, receiver_id),
                    ),
                ),
                Option::Some(k) => (match r {
                    Ok(m) => m.sender_id == sender_id && m.receiver_id == receiver_id
                        && envelope_seals(k, plaintext_content@, m.envelope),
                    Err(e) => e == EncryptionError::EncryptionFailed,
                }) && (encode_utf8(plaintext_content@).len() <= 0x10_0000_0000 ==> r is Ok),
            }),
    {
        let conversation_id = crate::encryption::create_conversation_id(sender_id, receiver_id);
        let key = match self.encryption_service.session_keys.get_by_conversation(conversation_id) {
            Some(k) => k,
            None => {
                return Err(EncryptionError::SessionKeyNotFound(conversation_id));
            },
        };
        proof {
            lemma_find_conversation_is_entry(self.cache(), conversation_id);
        }
        match self.encryption_service.encrypt_message(plaintext_content, key) {
            Ok(envelope) => Ok(OutboundMessage { sender_id, receiver_id, envelope }),
            Err(e) => Err(e),
        }
    }

    /// Carries a stored message's envelope fields into the codec's form.
    pub fn convert_to_encrypted_message(&self, message: &Message) -> (r: EncryptedMessage)
        ensures
            r.encrypted_content@ == message.encrypted_content@,
            r.content_hash@ == message.content_hash@,
            r.encryption_version == message.encryption_version,
            r.nonce@ == message.nonce@,
            r.session_key_id == message.session_key_id,
            r.encrypted_session_key@ == Seq::<char>::empty(),
    {
        EncryptedMessage {
            encrypted_content: message.encrypted_content.clone(),
            encrypted_session_key: String::new(),
            content_hash: message.content_hash.clone(),
            encryption_version: message.encryption_version,
            nonce: message.nonce.clone(),
            session_key_id: message.session_key_id,
        }
    }

    /// Opens a batch of stored messages. The result is exactly the plan: in
    /// fetch order, one output for each message whose key is cached and
    /// whose envelope opens, carrying that message's fields and its text. A
    /// message that fails is skipped without aborting the batch, and every
    /// message genuinely sealed under a cached key comes out decrypted.
    pub fn receive_encrypted_messages(&self, messages: &Vec<Message>) -> (r: Vec<DecryptedMessage>)
        requires
            self.wf(),
        ensures
            r@.len() <= messages@.len(),
            batch_exact(self.cache(), messages@, r@),
            batch_complete(self.cache(), messages@, r@, messages@.len() as int),
    {
        let n = messages.len();
        let mut out: Vec<DecryptedMessage> = Vec::new();
        let mut i: usize = 0;
        proof {
            assert(messages@.take(0) =~= Seq::<Message>::empty());
        }
        while i < n
            invariant
                i <= n,
                n == messages@.len(),
                self.wf(),
                out@.len() <= i,
                batch_exact(self.cache(), messages@.take(i as int), out@),
                batch_complete(self.cache(), messages@, out@, i as int),
            decreases n - i,
        {
            let ghost prefix = messages@.take(i as int);
            let ghost next = messages@.take(i as int + 1);
            proof {
                assert(next.drop_last() =~= prefix);
                assert(next.last() == messages@[i as int]);
            }
            let message = &messages[i];
            let ghost mi = messages@[i as int];
            match self.encryption_service.get_session_key(message.session_key_id) {
                Some(session_key) => {
                    proof {
                        lemma_find_session_is_entry(self.cache(), message.session_key_id);
                    }
                    let ghost kw = *session_key;
                    let envelope = self.convert_to_encrypted_message(message);
                    let ghost env = envelope;
                    match self.encryption_service.decrypt_message(&envelope, session_key) {
                        Ok(content) => {
                            let ghost text = content@;
                            let file_url = match &message.file_url {
                                Some(s) => Some(s.clone()),
                                None => None,
                            };
                            let mime_type = match &message.mime_type {
                                Some(s) => Some(s.clone()),
                                None => None,
                            };
                            let ghost pre_out = out@;
                            out.push(
                                DecryptedMessage {
                                    id: message.id,
                                    sender_id: message.sender_id,
                                    receiver_id: message.receiver_id,
                                    content,
                                    message_type: message.message_type,
                                    is_read: message.is_read,
                                    file_url,
                                    file_size: message.file_size,
                                    mime_type,
                                    created_at: message.created_at,
                                    updated_at: message.updated_at,
                                },
                            );
                            proof {
                                let d = out@[pre_out.len() as int];
                                assert(message_outcome(self.cache(), mi) == Some(text));
                                assert(receive_plan(self.cache(), next) == receive_plan(
                                    self.cache(),
                                    prefix,
                                ).push((mi, text)));
                                assert(decrypted_matches(mi, text, d));
                                assert forall|j: int|
                                    0 <= j < out@.len() implies decrypted_matches(
                                    (#[trigger] receive_plan(self.cache(), next)[j]).0,
                                    receive_plan(self.cache(), next)[j].1,
                                    out@[j],
                                ) by {
                                    if j < pre_out.len() {
                                        assert(receive_plan(self.cache(), next)[j] == receive_plan(
                                            self.cache(),
                                            prefix,
                                        )[j]);
                                        assert(out@[j] == pre_out[j]);
                                        assert(batch_exact(self.cache(), prefix, pre_out));
                                    } else {
                                        assert(receive_plan(self.cache(), next)[j] == (mi, text));
                                    }
                                }
                                assert(batch_exact(self.cache(), next, out@));
                                assert forall|i0: int, plain: Seq<char>|
                                    #![trigger message_sealed_with(self.cache(), messages@[i0], plain)]
                                    0 <= i0 < i + 1 && message_sealed_with(
                                        self.cache(),
                                        messages@[i0],
                                        plain,
                                    ) implies (exists|j: int|
                                    0 <= j < out@.len() && (#[trigger] out@[j]).id
                                        == messages@[i0].id && out@[j].content@ == plain) by {
                                    if i0 == i as int {
                                        assert(envelope_seals(kw, plain, env));
                                        assert(out@[pre_out.len() as int].id == messages@[i0].id
                                            && out@[pre_out.len() as int].content@ == plain);
                                    } else {
                                        assert(batch_complete(
                                            self.cache(),
                                            messages@,
                                            pre_out,
                                            i as int,
                                        ));
                                        let j0 = choose|j: int|
                                            0 <= j < pre_out.len() && (#[trigger] pre_out[j]).id
                                                == messages@[i0].id && pre_out[j].content@ == plain;
                                        assert(out@[j0] == pre_out[j0]);
                                        assert(out@[j0].id == messages@[i0].id && out@[j0].content@
                                            == plain);
                                    }
                                }
                                assert(batch_complete(self.cache(), messages@, out@, i as int + 1));
                            }
                        },
                        Err(_) => {
                            proof {
                                assert(message_outcome(self.cache(), mi) is None);
                                assert(receive_plan(self.cache(), next) == receive_plan(
                                    self.cache(),
                                    prefix,
                                ));
                                assert(batch_exact(self.cache(), next, out@));
                                assert forall|plain: Seq<char>|
                                    !message_sealed_with(self.cache(), mi, plain) by {
                                    if message_sealed_with(self.cache(), mi, plain) {
                                        assert(envelope_seals(kw, plain, env));
                                    }
                                }
                            }
                        },
                    }
                },
                None => {
                    proof {
                        assert(message_outcome(self.cache(), mi) is None);
                        assert(receive_plan(self.cache(), next) == receive_plan(
                            self.cache(),
                            prefix,
                        ));
                        assert(batch_exact(self.cache(), next, out@));
                    }
                },
            }
            i += 1;
        }
        proof {
            assert(messages@.take(n as int) =~= messages@);
        }
        out
    }

    /// Generates a user's asymmetric pair and the durable record of its
    /// public half; the private half never leaves the caller.
    pub fn generate_user_keys(&self, user_id: u128) -> (r: Result<
        (EncryptionKeyPair, UserKeyRecord),
        EncryptionError,
    >)
        ensures
            (match r {
                Ok((pair, rec)) => rec.user_id == user_id && rec.public_key_pem@
                    == pair.public_key_pem@ && rec.key_version == pair.version && pair.version == 1
                    && pair.key_id != 0 && pair.public_key_pem@ == crate::asym::rsa_public_of(
                    pair.private_key_pem@,
                ) && crate::asym::rsa_generated_pair(pair.private_key_pem@, pair.public_key_pem@)
                    && crate::asym::rsa_pem_canon_of(pair.public_key_pem@) == Some(
                    pair.public_key_pem@,
                ),
                Err(e) => e == EncryptionError::KeyGenerationFailed,
            }),
    {
        let pair = match self.encryption_service.generate_key_pair() {
            Ok(p) => p,
            Err(e) => {
                return Err(e);
            },
        };
        let record = UserKeyRecord {
            user_id,
            public_key_pem: pair.public_key_pem.clone(),
            key_version: pair.version,
            created_at: crate::entropy::now_millis(),
        };
        Ok((pair, record))
    }

    /// Checks a decrypted content against a stored message's content hash.
    pub fn verify_message_integrity(&self, message: &Message, decrypted_content: &str) -> (r: bool)
        ensures
            r == (message.content_hash@ == hex_of(digest32_of(encode_utf8(decrypted_content@)))),
    {
        let expected_hash = self.encryption_service.generate_content_hash(decrypted_content);
        expected_hash.eq(&message.content_hash)
    }
}

} // verus!
