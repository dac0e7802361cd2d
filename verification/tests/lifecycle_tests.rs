use base64::Engine;
use chrono::Utc;
use ochat_core::encryption::EncryptionError;
use ochat_core::lifecycle::{
    create_conversation_id, ConversationSessionRecord, EncryptedMessagingService, KeyLookup,
};
use ochat_core::messages::{validate_encrypted_message, Message, MessageType};
use uuid::Uuid;

#[test]
fn test_encrypted_messaging_workflow() {
    let user1 = Uuid::new_v4().as_u128();
    let user2 = Uuid::new_v4().as_u128();

    let conv_id1 = create_conversation_id(user1, user2);
    let conv_id2 = create_conversation_id(user2, user1);

    assert_eq!(conv_id1, conv_id2);
}

#[test]
fn test_message_validation() {
    let valid_message = Message {
        id: Uuid::new_v4().as_u128(),
        sender_id: Uuid::new_v4().as_u128(),
        receiver_id: Uuid::new_v4().as_u128(),
        encrypted_content: "encrypted_content".to_string(),
        content_hash: "hash".to_string(),
        encryption_version: 1,
        nonce: "nonce".to_string(),
        session_key_id: Uuid::new_v4().as_u128(),
        message_type: MessageType::Text,
        is_read: false,
        file_url: None,
        file_size: None,
        mime_type: None,
        created_at: Utc::now().timestamp_millis(),
        updated_at: Utc::now().timestamp_millis(),
    };

    assert!(validate_encrypted_message(&valid_message).is_ok());
}

/// A minimal stand-in for the durable store: `create_unique` refuses a
/// second record for the same conversation, exactly the conditional-put the
/// lifecycle relies on.
struct MemoryStore {
    records: Vec<ConversationSessionRecord>,
}

impl MemoryStore {
    fn new() -> Self {
        MemoryStore { records: Vec::new() }
    }

    fn get(&self, conversation_id: u128) -> Option<&ConversationSessionRecord> {
        self.records
            .iter()
            .find(|r| r.conversation_id == conversation_id && r.is_active)
    }

    fn create_unique(&mut self, record: ConversationSessionRecord) -> Result<(), ()> {
        if self.records.iter().any(|r| r.conversation_id == record.conversation_id) {
            return Err(());
        }
        self.records.push(record);
        Ok(())
    }
}

/// One full get-or-create call as a caller would run it: lock-free cache
/// probe, then store re-check, adopt or create inside the critical section.
fn get_or_create(
    service: &mut EncryptedMessagingService,
    store: &mut MemoryStore,
    caller: u128,
    other: u128,
    caller_private_pem: &str,
    caller_public_pem: &str,
    other_public_pem: &str,
) -> ochat_core::session_store::SessionKey {
    match service.begin_key_exchange(caller, other) {
        KeyLookup::CacheHit(k) => k,
        KeyLookup::NeedRecord { conversation_id } => {
            // Inside the per-conversation critical section now.
            if let Some(record) = store.get(conversation_id) {
                let record = record.clone();
                return service
                    .adopt_stored_session(caller, caller_private_pem, &record)
                    .unwrap();
            }
            let pending = service
                .prepare_new_session(caller, other, caller_public_pem, other_public_pem)
                .unwrap();
            match store.create_unique(pending.record.clone()) {
                Ok(()) => service.commit_new_session(pending).unwrap(),
                Err(()) => {
                    // Another writer won the atomic create: re-read and adopt.
                    let record = store.get(conversation_id).unwrap().clone();
                    service
                        .adopt_stored_session(caller, caller_private_pem, &record)
                        .unwrap()
                },
            }
        },
    }
}

#[test]
fn test_single_flight_creation() {
    let mut replica_a = EncryptedMessagingService::new();
    let mut replica_b = EncryptedMessagingService::new();
    let a = Uuid::new_v4().as_u128();
    let b = Uuid::new_v4().as_u128();
    let (pair_a, _) = replica_a.generate_user_keys(a).unwrap();
    let (pair_b, _) = replica_b.generate_user_keys(b).unwrap();
    let mut store = MemoryStore::new();

    let mut session_ids: Vec<u128> = Vec::new();
    for round in 0..50 {
        let key = if round % 2 == 0 {
            get_or_create(
                &mut replica_a,
                &mut store,
                a,
                b,
                &pair_a.private_key_pem,
                &pair_a.public_key_pem,
                &pair_b.public_key_pem,
            )
        } else {
            get_or_create(
                &mut replica_b,
                &mut store,
                b,
                a,
                &pair_b.private_key_pem,
                &pair_b.public_key_pem,
                &pair_a.public_key_pem,
            )
        };
        session_ids.push(key.session_id);
    }

    assert_eq!(store.records.len(), 1);
    assert!(session_ids.iter().all(|sid| *sid == session_ids[0]));
}

#[test]
fn test_create_conflict_resolves_to_winner() {
    // Both replicas race past the empty-store check; the loser's
    // create-unique is refused and it adopts the winner's record.
    let mut replica_a = EncryptedMessagingService::new();
    let mut replica_b = EncryptedMessagingService::new();
    let a = Uuid::new_v4().as_u128();
    let b = Uuid::new_v4().as_u128();
    let (pair_a, _) = replica_a.generate_user_keys(a).unwrap();
    let (pair_b, _) = replica_b.generate_user_keys(b).unwrap();
    let mut store = MemoryStore::new();

    let pending_a = replica_a
        .prepare_new_session(a, b, &pair_a.public_key_pem, &pair_b.public_key_pem)
        .unwrap();
    let pending_b = replica_b
        .prepare_new_session(b, a, &pair_b.public_key_pem, &pair_a.public_key_pem)
        .unwrap();

    assert!(store.create_unique(pending_a.record.clone()).is_ok());
    assert!(store.create_unique(pending_b.record.clone()).is_err());

    let key_a = replica_a.commit_new_session(pending_a).unwrap();
    let record = store.get(create_conversation_id(a, b)).unwrap().clone();
    let key_b = replica_b
        .adopt_stored_session(b, &pair_b.private_key_pem, &record)
        .unwrap();

    assert_eq!(store.records.len(), 1);
    assert_eq!(key_a.session_id, key_b.session_id);
    assert_eq!(key_a.key, key_b.key);
    assert_eq!(key_a.nonce, key_b.nonce);
}

#[test]
fn test_mutual_first_messages() {
    let mut replica_a = EncryptedMessagingService::new();
    let mut replica_b = EncryptedMessagingService::new();
    let a = Uuid::new_v4().as_u128();
    let b = Uuid::new_v4().as_u128();
    let (pair_a, _) = replica_a.generate_user_keys(a).unwrap();
    let (pair_b, _) = replica_b.generate_user_keys(b).unwrap();
    let mut store = MemoryStore::new();

    // A and B send their first messages within the same millisecond: both
    // run get-or-create; the store's conditional put leaves one key.
    let key_a = get_or_create(
        &mut replica_a,
        &mut store,
        a,
        b,
        &pair_a.private_key_pem,
        &pair_a.public_key_pem,
        &pair_b.public_key_pem,
    );
    let key_b = get_or_create(
        &mut replica_b,
        &mut store,
        b,
        a,
        &pair_b.private_key_pem,
        &pair_b.public_key_pem,
        &pair_a.public_key_pem,
    );
    assert_eq!(key_a.session_id, key_b.session_id);

    let out_a = replica_a.send_encrypted_message(a, b, "hi").unwrap();
    let out_b = replica_b.send_encrypted_message(b, a, "hello").unwrap();

    let kb = replica_b.resolve_key(out_a.envelope.session_key_id).unwrap();
    let received_by_b = replica_b
        .encryption_service
        .decrypt_message(&out_a.envelope, kb)
        .unwrap();
    assert_eq!(received_by_b, "hi");

    let ka = replica_a.resolve_key(out_b.envelope.session_key_id).unwrap();
    let received_by_a = replica_a
        .encryption_service
        .decrypt_message(&out_b.envelope, ka)
        .unwrap();
    assert_eq!(received_by_a, "hello");
}

#[test]
fn test_send_without_session_key_fails() {
    let service = EncryptedMessagingService::new();
    let a = Uuid::new_v4().as_u128();
    let b = Uuid::new_v4().as_u128();
    let conversation_id = create_conversation_id(a, b);
    assert_eq!(
        service.send_encrypted_message(a, b, "hi").err(),
        Some(EncryptionError::SessionKeyNotFound(conversation_id))
    );
}

#[test]
fn test_resolve_key_miss_is_terminal() {
    let service = EncryptedMessagingService::new();
    match service.resolve_key(42) {
        Err(EncryptionError::SessionKeyNotFound(id)) => assert_eq!(id, 42),
        _ => panic!("a cache miss must surface SessionKeyNotFound"),
    }
}

#[test]
fn test_receive_skips_undecryptable_messages() {
    let mut replica_a = EncryptedMessagingService::new();
    let mut replica_b = EncryptedMessagingService::new();
    let a = Uuid::new_v4().as_u128();
    let b = Uuid::new_v4().as_u128();
    let (pair_a, _) = replica_a.generate_user_keys(a).unwrap();
    let (pair_b, _) = replica_b.generate_user_keys(b).unwrap();
    let mut store = MemoryStore::new();

    get_or_create(
        &mut replica_a,
        &mut store,
        a,
        b,
        &pair_a.private_key_pem,
        &pair_a.public_key_pem,
        &pair_b.public_key_pem,
    );
    get_or_create(
        &mut replica_b,
        &mut store,
        b,
        a,
        &pair_b.private_key_pem,
        &pair_b.public_key_pem,
        &pair_a.public_key_pem,
    );

    let out = replica_a.send_encrypted_message(a, b, "first").unwrap();
    let out_second = replica_a.send_encrypted_message(a, b, "second").unwrap();
    let now = Utc::now().timestamp_millis();
    let good = Message {
        id: 1,
        sender_id: a,
        receiver_id: b,
        encrypted_content: out.envelope.encrypted_content.clone(),
        content_hash: out.envelope.content_hash.clone(),
        encryption_version: out.envelope.encryption_version,
        nonce: out.envelope.nonce.clone(),
        session_key_id: out.envelope.session_key_id,
        message_type: MessageType::Text,
        is_read: false,
        file_url: None,
        file_size: None,
        mime_type: None,
        created_at: now,
        updated_at: now,
    };
    // Same envelope, but its ciphertext bit-flipped: decryption fails and
    // the message is skipped without aborting the batch.
    let mut cipher = base64::engine::general_purpose::STANDARD
        .decode(&good.encrypted_content)
        .unwrap();
    cipher[0] ^= 0x01;
    let tampered = Message {
        id: 2,
        encrypted_content: base64::engine::general_purpose::STANDARD.encode(&cipher),
        ..good.clone()
    };
    // A message whose session key is unknown to this process.
    let unknown_key = Message {
        id: 3,
        session_key_id: good.session_key_id.wrapping_add(1),
        ..good.clone()
    };
    // A second sound message, carrying attachment metadata.
    let second = Message {
        id: 4,
        encrypted_content: out_second.envelope.encrypted_content.clone(),
        content_hash: out_second.envelope.content_hash.clone(),
        nonce: out_second.envelope.nonce.clone(),
        file_url: Some("https://files.example/one".to_string()),
        file_size: Some(512),
        mime_type: Some("image/png".to_string()),
        ..good.clone()
    };

    let batch = vec![second.clone(), tampered, good.clone(), unknown_key];
    let decrypted = replica_b.receive_encrypted_messages(&batch);

    // Exactly the messages that open, in fetch order, fields carried over.
    assert_eq!(decrypted.len(), 2);
    assert_eq!(decrypted[0].id, second.id);
    assert_eq!(decrypted[0].content, "second");
    assert_eq!(decrypted[0].file_url, second.file_url);
    assert_eq!(decrypted[0].file_size, second.file_size);
    assert_eq!(decrypted[0].mime_type, second.mime_type);
    assert_eq!(decrypted[1].id, good.id);
    assert_eq!(decrypted[1].content, "first");
    assert_eq!(decrypted[1].sender_id, a);
}

#[test]
fn test_adopt_rejects_non_participant() {
    let mut replica_a = EncryptedMessagingService::new();
    let a = Uuid::new_v4().as_u128();
    let b = Uuid::new_v4().as_u128();
    let outsider = Uuid::new_v4().as_u128();
    let (pair_a, _) = replica_a.generate_user_keys(a).unwrap();

    let pending = replica_a
        .prepare_new_session(a, b, &pair_a.public_key_pem, &pair_a.public_key_pem)
        .unwrap();
    let record = pending.record.clone();
    replica_a.commit_new_session(pending).unwrap();

    let mut other = EncryptedMessagingService::new();
    assert_eq!(
        other
            .adopt_stored_session(outsider, &pair_a.private_key_pem, &record)
            .err(),
        Some(EncryptionError::WrongKey)
    );
}

#[test]
fn test_verify_message_integrity() {
    let replica = EncryptedMessagingService::new();
    let hash = replica
        .encryption_service
        .generate_content_hash("the content");
    let now = Utc::now().timestamp_millis();
    let message = Message {
        id: 1,
        sender_id: 2,
        receiver_id: 3,
        encrypted_content: "irrelevant".to_string(),
        content_hash: hash,
        encryption_version: 1,
        nonce: "irrelevant".to_string(),
        session_key_id: 4,
        message_type: MessageType::Text,
        is_read: false,
        file_url: None,
        file_size: None,
        mime_type: None,
        created_at: now,
        updated_at: now,
    };
    assert!(replica.verify_message_integrity(&message, "the content"));
    assert!(!replica.verify_message_integrity(&message, "other content"));
}
