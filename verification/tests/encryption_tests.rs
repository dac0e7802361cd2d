use base64::Engine;
use rsa::pkcs8::DecodePublicKey;
use ochat_core::encryption::{
    create_conversation_id, validate_encrypted_message, EncryptedMessage, EncryptionError,
    EncryptionService, ENCRYPTION_VERSION,
};
use ochat_core::session_store::SessionKey;
use sha2::Digest;
use uuid::Uuid;

fn b64(bytes: &[u8]) -> String {
    base64::engine::general_purpose::STANDARD.encode(bytes)
}

fn b64_decode(text: &str) -> Vec<u8> {
    base64::engine::general_purpose::STANDARD
        .decode(text)
        .unwrap()
}

#[test]
fn test_key_generation() {
    let service = EncryptionService::new();
    let key_pair = service.generate_key_pair().unwrap();

    assert_eq!(key_pair.version, 1);
    assert_ne!(key_pair.key_id, Uuid::nil().as_u128());
}

#[test]
fn test_session_key_generation() {
    let service = EncryptionService::new();
    let session_key = service.generate_session_key().unwrap();

    assert_ne!(session_key.session_id, Uuid::nil().as_u128());
    assert_eq!(session_key.key.len(), 32);
    assert_eq!(session_key.nonce.len(), 12);
}

#[test]
fn test_message_encryption_decryption() {
    let service = EncryptionService::new();
    let session_key = service.generate_session_key().unwrap();
    let original_content = "Hello, encrypted world!";

    let encrypted = service
        .encrypt_message(original_content, &session_key)
        .unwrap();

    let decrypted = service.decrypt_message(&encrypted, &session_key).unwrap();

    assert_eq!(original_content, decrypted);
}

#[test]
fn test_conversation_id_consistency() {
    let user1 = Uuid::new_v4().as_u128();
    let user2 = Uuid::new_v4().as_u128();

    let conv1 = create_conversation_id(user1, user2);
    let conv2 = create_conversation_id(user2, user1);

    assert_eq!(conv1, conv2);
}

#[test]
fn test_conversation_id_matches_digest_construction() {
    let user1: u128 = 0x0123_4567_89ab_cdef_0011_2233_4455_6677;
    let user2: u128 = 0x0fed_cba9_8765_4321_7766_5544_3322_1100;
    let (lo, hi) = if user1 < user2 {
        (user1, user2)
    } else {
        (user2, user1)
    };
    let mut data = lo.to_be_bytes().to_vec();
    data.extend_from_slice(&hi.to_be_bytes());
    let digest = sha2::Sha256::digest(&data);
    let mut bytes = [0u8; 16];
    bytes.copy_from_slice(&digest[..16]);
    bytes[6] = (bytes[6] & 0x0f) | 0x40;
    bytes[8] = (bytes[8] & 0x3f) | 0x80;
    let expected = u128::from_be_bytes(bytes);

    assert_eq!(create_conversation_id(user1, user2), expected);
}

#[test]
fn test_empty_plaintext_round_trip() {
    let service = EncryptionService::new();
    let session_key = service.generate_session_key().unwrap();
    let envelope = service.encrypt_message("", &session_key).unwrap();
    assert_eq!(service.decrypt_message(&envelope, &session_key).unwrap(), "");
}

#[test]
fn test_conversation_id_symmetry_many_pairs() {
    for _ in 0..1000 {
        let user1 = Uuid::new_v4().as_u128();
        let user2 = Uuid::new_v4().as_u128();
        if user1 == user2 {
            continue;
        }
        assert_eq!(
            create_conversation_id(user1, user2),
            create_conversation_id(user2, user1)
        );
    }
}

#[test]
fn test_content_hash_known_values() {
    let service = EncryptionService::new();
    assert_eq!(
        service.generate_content_hash(""),
        "e3b0c44298fc1c149afbf4c8996fb92427ae41e4649b934ca495991b7852b855"
    );
    assert_eq!(
        service.generate_content_hash("abc"),
        "ba7816bf8f01cfea414140de5dae2223b00361a396177a9cb410ff61f20015ad"
    );
}

#[test]
fn test_ciphertext_differs_from_plaintext() {
    let service = EncryptionService::new();
    let session_key = service.generate_session_key().unwrap();
    let envelope = service.encrypt_message("attack at dawn", &session_key).unwrap();
    let cipher = b64_decode(&envelope.encrypted_content);
    assert_eq!(cipher.len(), "attack at dawn".len() + 16);
    assert_ne!(&cipher[.."attack at dawn".len()], "attack at dawn".as_bytes());
}

#[test]
fn test_tampered_ciphertext_is_rejected() {
    let service = EncryptionService::new();
    let session_key = service.generate_session_key().unwrap();
    let envelope = service.encrypt_message("attack at dawn", &session_key).unwrap();

    let mut cipher = b64_decode(&envelope.encrypted_content);
    cipher[0] ^= 0x01;
    let tampered = EncryptedMessage {
        encrypted_content: b64(&cipher),
        ..envelope
    };

    assert_eq!(
        service.decrypt_message(&tampered, &session_key),
        Err(EncryptionError::DecryptionFailed)
    );
}

#[test]
fn test_tampered_nonce_is_rejected() {
    let service = EncryptionService::new();
    let session_key = service.generate_session_key().unwrap();
    let envelope = service.encrypt_message("attack at dawn", &session_key).unwrap();

    let mut nonce = b64_decode(&envelope.nonce);
    nonce[0] ^= 0x80;
    let tampered = EncryptedMessage {
        nonce: b64(&nonce),
        ..envelope
    };

    assert_eq!(
        service.decrypt_message(&tampered, &session_key),
        Err(EncryptionError::DecryptionFailed)
    );
}

#[test]
fn test_tampered_content_hash_is_rejected() {
    let service = EncryptionService::new();
    let session_key = service.generate_session_key().unwrap();
    let envelope = service.encrypt_message("attack at dawn", &session_key).unwrap();

    let mut hash_bytes = envelope.content_hash.clone().into_bytes();
    hash_bytes[0] = if hash_bytes[0] == b'0' { b'1' } else { b'0' };
    let tampered = EncryptedMessage {
        content_hash: String::from_utf8(hash_bytes).unwrap(),
        ..envelope
    };

    assert_eq!(
        service.decrypt_message(&tampered, &session_key),
        Err(EncryptionError::HashVerificationFailed)
    );
}

#[test]
fn test_wrong_key_id_is_rejected_before_decryption() {
    let service = EncryptionService::new();
    let session_key = service.generate_session_key().unwrap();
    let envelope = service.encrypt_message("hello", &session_key).unwrap();

    let other = SessionKey {
        key: session_key.key.clone(),
        nonce: session_key.nonce.clone(),
        session_id: session_key.session_id.wrapping_add(1),
        created_at: session_key.created_at,
    };

    assert_eq!(
        service.decrypt_message(&envelope, &other),
        Err(EncryptionError::WrongKey)
    );
}

#[test]
fn test_validate_encrypted_message_cases() {
    let valid = EncryptedMessage {
        encrypted_content: b64(b"cipher"),
        encrypted_session_key: String::new(),
        content_hash: "aa".to_string(),
        encryption_version: ENCRYPTION_VERSION,
        nonce: b64(&[0u8; 12]),
        session_key_id: 7,
    };
    assert!(validate_encrypted_message(&valid).is_ok());

    let empty_content = EncryptedMessage {
        encrypted_content: String::new(),
        encrypted_session_key: String::new(),
        content_hash: "aa".to_string(),
        encryption_version: 1,
        nonce: b64(&[0u8; 12]),
        session_key_id: 7,
    };
    assert_eq!(
        validate_encrypted_message(&empty_content),
        Err(EncryptionError::InvalidMessageFormat)
    );

    let zero_version = EncryptedMessage {
        encrypted_content: b64(b"cipher"),
        encrypted_session_key: String::new(),
        content_hash: "aa".to_string(),
        encryption_version: 0,
        nonce: b64(&[0u8; 12]),
        session_key_id: 7,
    };
    assert_eq!(
        validate_encrypted_message(&zero_version),
        Err(EncryptionError::InvalidMessageFormat)
    );

    let bad_nonce = EncryptedMessage {
        encrypted_content: b64(b"cipher"),
        encrypted_session_key: String::new(),
        content_hash: "aa".to_string(),
        encryption_version: 1,
        nonce: "%%%not-base64%%%".to_string(),
        session_key_id: 7,
    };
    assert_eq!(
        validate_encrypted_message(&bad_nonce),
        Err(EncryptionError::InvalidMessageFormat)
    );
}

#[test]
fn test_wrap_unwrap_fidelity() {
    let service = EncryptionService::new();
    let pair = service.generate_key_pair().unwrap();
    let session_key = service.generate_session_key().unwrap();

    let wrapped = service
        .encrypt_session_key(&session_key, &pair.public_key_pem)
        .unwrap();
    let raw = service
        .decrypt_session_key(&wrapped, &pair.private_key_pem)
        .unwrap();

    assert_eq!(raw, session_key.key);
}

#[test]
fn test_unwrap_rejects_wrong_length_payload() {
    let service = EncryptionService::new();
    let pair = service.generate_key_pair().unwrap();
    let public = rsa::RsaPublicKey::from_public_key_pem(&pair.public_key_pem).unwrap();
    let wrapped = public
        .encrypt(&mut rand::rngs::OsRng, rsa::Pkcs1v15Encrypt, &[5u8; 16])
        .unwrap();
    assert_eq!(
        service.decrypt_session_key(&b64(&wrapped), &pair.private_key_pem),
        Err(EncryptionError::UnwrapFailed)
    );
    assert_eq!(
        service.decrypt_session_key("%%%", &pair.private_key_pem),
        Err(EncryptionError::DecryptionFailed)
    );
}

#[test]
fn test_import_export_public_key_round_trip() {
    let service = EncryptionService::new();
    let pair = service.generate_key_pair().unwrap();
    let exported = service.export_public_key_pem(&pair.public_key_pem).unwrap();
    let imported = service.import_public_key_pem(&exported).unwrap();
    assert_eq!(imported, pair.public_key_pem);
    assert_eq!(
        service.import_public_key_pem("not a key"),
        Err(EncryptionError::InvalidKeyFormat)
    );
}
