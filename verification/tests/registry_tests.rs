use ochat_core::messages::{Message, MessageType};
use ochat_core::registry::{
    delivery_for, handle_frame, presence_message, FrameAction, IncomingMessage, OutgoingMessage,
    SessionManager,
};

#[test]
fn test_handle_replacement_last_writer_wins() {
    let mut registry = SessionManager::new();
    let user = 7u128;

    registry.add_session(user, 1);
    registry.add_session(user, 2);
    assert_eq!(registry.connected_count(), 1);
    assert_eq!(registry.get_user_session(user), Some(2));

    // Disconnecting the first, stale handle leaves the second entry intact.
    registry.remove_session(user, 1);
    assert_eq!(registry.connected_count(), 1);
    assert_eq!(registry.get_user_session(user), Some(2));

    // Disconnecting the current handle removes the entry.
    registry.remove_session(user, 2);
    assert_eq!(registry.connected_count(), 0);
    assert_eq!(registry.get_user_session(user), None);
}

#[test]
fn test_routing_fallback_without_entry() {
    let mut registry = SessionManager::new();
    registry.add_session(1, 10);

    assert_eq!(registry.route_to(2), None);
    // No side effect: the registry is exactly as it was.
    assert_eq!(registry.connected_count(), 1);
    assert_eq!(registry.route_to(1), Some(10));
}

#[test]
fn test_remove_absent_user_changes_nothing() {
    let mut registry = SessionManager::new();
    registry.add_session(1, 10);
    registry.remove_session(2, 10);
    assert_eq!(registry.connected_count(), 1);
    assert_eq!(registry.get_user_session(1), Some(10));
}

#[test]
fn test_frame_decisions() {
    let mut registry = SessionManager::new();
    registry.add_session(2, 20);

    match handle_frame(&registry, 1, IncomingMessage::SendMessage { to: 2, content: "  ".to_string() }) {
        FrameAction::Reply(OutgoingMessage::Error { message }) => {
            assert_eq!(message, "Message content cannot be empty");
        },
        other => panic!("blank content must be refused, got {:?}", other),
    }

    let oversized = "x".repeat(4001);
    match handle_frame(&registry, 1, IncomingMessage::SendMessage { to: 2, content: oversized }) {
        FrameAction::Reply(OutgoingMessage::Error { message }) => {
            assert_eq!(message, "Message too long (max 4000 characters)");
        },
        other => panic!("oversized content must be refused, got {:?}", other),
    }

    match handle_frame(&registry, 1, IncomingMessage::SendMessage { to: 2, content: "hey".to_string() }) {
        FrameAction::PersistAndDeliver { receiver_id, content } => {
            assert_eq!(receiver_id, 2);
            assert_eq!(content, "hey");
        },
        other => panic!("a sound message must be persisted, got {:?}", other),
    }

    assert!(matches!(
        handle_frame(&registry, 1, IncomingMessage::Ping),
        FrameAction::Reply(OutgoingMessage::Pong)
    ));

    match handle_frame(&registry, 1, IncomingMessage::MarkRead { message_id: 9 }) {
        FrameAction::MarkStoredRead { message_id, reader } => {
            assert_eq!(message_id, 9);
            assert_eq!(reader, 1);
        },
        other => panic!("mark-read must reach the store, got {:?}", other),
    }

    match handle_frame(&registry, 1, IncomingMessage::Typing { to: 2, is_typing: true }) {
        FrameAction::Forward { to_handle, message } => {
            assert_eq!(to_handle, 20);
            assert!(matches!(
                message,
                OutgoingMessage::TypingIndicator { from: 1, is_typing: true }
            ));
        },
        other => panic!("typing must be forwarded to a live peer, got {:?}", other),
    }

    assert!(matches!(
        handle_frame(&registry, 1, IncomingMessage::Typing { to: 3, is_typing: true }),
        FrameAction::Ignore
    ));
}

#[test]
fn test_frame_size_boundary() {
    let registry = SessionManager::new();
    let at_limit = "x".repeat(4000);
    assert!(matches!(
        handle_frame(&registry, 1, IncomingMessage::SendMessage { to: 2, content: at_limit }),
        FrameAction::PersistAndDeliver { .. }
    ));
    let over_limit = "x".repeat(4001);
    assert!(matches!(
        handle_frame(&registry, 1, IncomingMessage::SendMessage { to: 2, content: over_limit }),
        FrameAction::Reply(OutgoingMessage::Error { .. })
    ));
}

#[test]
fn test_delivery_and_presence() {
    let mut registry = SessionManager::new();
    registry.add_session(5, 50);
    let message = Message {
        id: 11,
        sender_id: 4,
        receiver_id: 5,
        encrypted_content: "Y2lwaGVy".to_string(),
        content_hash: "aa".to_string(),
        encryption_version: 1,
        nonce: "bm9uY2U=".to_string(),
        session_key_id: 6,
        message_type: MessageType::Text,
        is_read: false,
        file_url: None,
        file_size: None,
        mime_type: None,
        created_at: 1234,
        updated_at: 1234,
    };

    match delivery_for(&registry, &message) {
        Some((handle, OutgoingMessage::NewMessage { id, from, content, timestamp })) => {
            assert_eq!(handle, 50);
            assert_eq!(id, 11);
            assert_eq!(from, 4);
            assert_eq!(content, "Y2lwaGVy");
            assert_eq!(timestamp, 1234);
        },
        other => panic!("a live receiver must get the frame, got {:?}", other),
    }

    let offline = Message { receiver_id: 6, ..message };
    assert!(delivery_for(&registry, &offline).is_none());

    assert!(matches!(
        presence_message(5, true),
        OutgoingMessage::UserOnline { user_id: 5 }
    ));
    assert!(matches!(
        presence_message(5, false),
        OutgoingMessage::UserOffline { user_id: 5 }
    ));
}

#[test]
fn test_broadcast_reaches_every_connected_handle() {
    let mut registry = SessionManager::new();
    registry.add_session(1, 10);
    registry.add_session(2, 20);
    registry.add_session(3, 30);
    registry.remove_session(2, 20);

    let handles = registry.broadcast();
    assert_eq!(handles.len(), 2);
    assert!(handles.contains(&10));
    assert!(handles.contains(&30));
    assert!(!handles.contains(&20));
}
