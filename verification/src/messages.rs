//! The message record as it rests in the durable store — ciphertext and
//! envelope metadata, never plaintext — and the read-side bookkeeping over
//! it: responses, statistics, read marks, and search-request validation.

use vstd::prelude::*;

use crate::encoding::trim_of;
use crate::encryption::EncryptionError;

verus! {

broadcast use vstd::set::group_set_axioms;

/// What kind of content a message carries.
#[derive(Clone, Copy, PartialEq, Eq, Structural, Debug)]
pub enum MessageType {
    Text,
    Image,
    File,
    System,
}

/// The lowercase name of a message type, as it appears on the wire.
pub open spec fn message_type_label_spec(t: MessageType) -> Seq<char> {
    match t {
        MessageType::Text => "text"@,
        MessageType::Image => "image"@,
        MessageType::File => "file"@,
        MessageType::System => "system"@,
    }
}

/// Writes a message type as its lowercase wire name.
pub fn message_type_label(t: MessageType) -> (r: String)
    ensures
        r@ == message_type_label_spec(t),
{
    match t {
        MessageType::Text => "text".to_owned(),
        MessageType::Image => "image".to_owned(),
        MessageType::File => "file".to_owned(),
        MessageType::System => "system".to_owned(),
    }
}

/// A stored message: the sealed envelope fields plus delivery metadata.
/// Content rests encrypted; only a participant's session key opens it.
#[derive(Clone)]
pub struct Message {
    pub id: u128,
    pub sender_id: u128,
    pub receiver_id: u128,
    pub encrypted_content: String,
    pub content_hash: String,
    pub encryption_version: u32,
    pub nonce: String,
    pub session_key_id: u128,
    pub message_type: MessageType,
    pub is_read: bool,
    pub file_url: Option<String>,
    pub file_size: Option<i64>,
    pub mime_type: Option<String>,
    pub created_at: i64,
    pub updated_at: i64,
}

/// What a sender hands in to create a message.
pub struct NewMessage {
    pub receiver_id: u128,
    pub content: String,
    pub message_type: Option<MessageType>,
    pub file_url: Option<String>,
    pub file_size: Option<i64>,
    pub mime_type: Option<String>,
}

/// A message opened for display: the same record with plaintext content.
pub struct DecryptedMessage {
    pub id: u128,
    pub sender_id: u128,
    pub receiver_id: u128,
    pub content: String,
    pub message_type: MessageType,
    pub is_read: bool,
    pub file_url: Option<String>,
    pub file_size: Option<i64>,
    pub mime_type: Option<String>,
    pub created_at: i64,
    pub updated_at: i64,
}

/// Rejects a stored message whose envelope fields are structurally absent:
/// empty ciphertext, empty hash, or a version below one.
pub fn validate_encrypted_message(message: &Message) -> (r: Result<(), EncryptionError>)
    ensures
        (r is Ok <==> message.encrypted_content@.len() > 0 && message.content_hash@.len() > 0
            && message.encryption_version >= 1),
        r matches Err(e) ==> e == EncryptionError::InvalidMessageFormat,
{
    if message.encrypted_content.as_str().is_empty() {
        return Err(EncryptionError::InvalidMessageFormat);
    }
    if message.content_hash.as_str().is_empty() {
        return Err(EncryptionError::InvalidMessageFormat);
    }
    if message.encryption_version == 0 {
        return Err(EncryptionError::InvalidMessageFormat);
    }
    Ok(())
}

/// A message as the read side returns it, with the viewer's perspective.
pub struct MessageResponse {
    pub id: u128,
    pub sender_id: u128,
    pub receiver_id: u128,
    pub content: String,
    pub message_type: String,
    pub is_read: bool,
    pub created_at: i64,
    pub updated_at: i64,
    pub is_sender: bool,
}

/// `r` renders `m` for the viewer `u`: every field carried over, the type
/// as its wire name, and `is_sender` telling the viewer's side.
pub open spec fn response_of(m: Message, u: u128, r: MessageResponse) -> bool {
    &&& r.id == m.id
    &&& r.sender_id == m.sender_id
    &&& r.receiver_id == m.receiver_id
    &&& r.content@ == m.encrypted_content@
    &&& r.message_type@ == message_type_label_spec(m.message_type)
    &&& r.is_read == m.is_read
    &&& r.created_at == m.created_at
    &&& r.updated_at == m.updated_at
    &&& r.is_sender == (m.sender_id == u)
}

impl MessageResponse {
    /// Renders a stored message for one viewer.
    pub fn from_db_message(message: &Message, current_user_id: u128) -> (r: MessageResponse)
        ensures
            response_of(*message, current_user_id, r),
    {
        MessageResponse {
            id: message.id,
            sender_id: message.sender_id,
            receiver_id: message.receiver_id,
            content: message.encrypted_content.clone(),
            message_type: message_type_label(message.message_type),
            is_read: message.is_read,
            created_at: message.created_at,
            updated_at: message.updated_at,
            is_sender: message.sender_id == current_user_id,
        }
    }
}

/// Renders a batch of stored messages for one viewer, in order.
pub fn map_responses(messages: &Vec<Message>, current_user_id: u128) -> (r: Vec<MessageResponse>)
    ensures
        r@.len() == messages@.len(),
        forall|i: int|
            0 <= i < messages@.len() ==> response_of(messages@[i], current_user_id, #[trigger] r@[i]),
{
    let n = messages.len();
    let mut out: Vec<MessageResponse> = Vec::new();
    let mut i: usize = 0;
    while i < n
        invariant
            i <= n,
            n == messages@.len(),
            out@.len() == i,
            forall|j: int|
                0 <= j < i ==> response_of(messages@[j], current_user_id, #[trigger] out@[j]),
        decreases n - i,
    {
        out.push(MessageResponse::from_db_message(&messages[i], current_user_id));
        i += 1;
    }
    out
}

/// One page of a conversation's history.
pub struct ConversationResponse {
    pub messages: Vec<MessageResponse>,
    pub total_count: i64,
    pub unread_count: i64,
    pub has_more: bool,
}

/// Assembles a conversation page from fetched messages and store-side
/// counts; a full page signals that more history remains.
pub fn conversation_response(
    messages: &Vec<Message>,
    current_user_id: u128,
    limit: i64,
    total_count: i64,
    unread_count: i64,
) -> (r: ConversationResponse)
    requires
        messages@.len() <= 0x7fff_ffff_ffff_ffff,
    ensures
        r.messages@.len() == messages@.len(),
        forall|i: int|
            0 <= i < messages@.len() ==> response_of(
                messages@[i],
                current_user_id,
                #[trigger] r.messages@[i],
            ),
        r.total_count == total_count,
        r.unread_count == unread_count,
        r.has_more == (messages@.len() == limit),
{
    let rendered = map_responses(messages, current_user_id);
    let has_more: bool = messages.len() as i64 == limit;
    ConversationResponse { messages: rendered, total_count, unread_count, has_more }
}

/// Counters the read side reports about one user's traffic.
pub struct MessageStatsResponse {
    pub total_messages_sent: i64,
    pub total_messages_received: i64,
    pub unread_messages: i64,
    pub active_conversations: i64,
}

/// How many of the messages the user sent.
pub open spec fn sent_count(s: Seq<Message>, u: u128) -> int
    decreases s.len(),
{
    if s.len() == 0 {
        0
    } else {
        sent_count(s.drop_last(), u) + (if s.last().sender_id == u {
            1int
        } else {
            0int
        })
    }
}

/// How many of the messages the user received.
pub open spec fn received_count(s: Seq<Message>, u: u128) -> int
    decreases s.len(),
{
    if s.len() == 0 {
        0
    } else {
        received_count(s.drop_last(), u) + (if s.last().receiver_id == u {
            1int
        } else {
            0int
        })
    }
}

/// How many of the messages await the user unread.
pub open spec fn unread_message_count(s: Seq<Message>, u: u128) -> int
    decreases s.len(),
{
    if s.len() == 0 {
        0
    } else {
        unread_message_count(s.drop_last(), u) + (if s.last().receiver_id == u
            && !s.last().is_read {
            1int
        } else {
            0int
        })
    }
}

/// The message touches the user, as sender or receiver.
pub open spec fn involves(m: Message, u: u128) -> bool {
    m.sender_id == u || m.receiver_id == u
}

/// The other party of a message, from the user's point of view.
pub open spec fn partner_of(m: Message, u: u128) -> u128 {
    if m.sender_id == u {
        m.receiver_id
    } else {
        m.sender_id
    }
}

/// Everyone the user has exchanged messages with.
pub open spec fn partners(s: Seq<Message>, u: u128) -> Set<u128>
    decreases s.len(),
{
    if s.len() == 0 {
        Set::empty()
    } else if involves(s.last(), u) {
        partners(s.drop_last(), u).insert(partner_of(s.last(), u))
    } else {
        partners(s.drop_last(), u)
    }
}

/// Whether a vector of identifiers holds one.
fn contains_id(ids: &Vec<u128>, x: u128) -> (r: bool)
    ensures
        r == ids@.contains(x),
{
    let n = ids.len();
    let mut i: usize = 0;
    while i < n
        invariant
            i <= n,
            n == ids@.len(),
            forall|j: int| 0 <= j < i ==> ids@[j] != x,
        decreases n - i,
    {
        if ids[i] == x {
            return true;
        }
        i += 1;
    }
    false
}

/// Counts one user's traffic in a batch of messages: messages sent,
/// received, still unread, and the number of distinct conversation partners.
pub fn message_stats(user_id: u128, messages: &Vec<Message>) -> (r: MessageStatsResponse)
    requires
        messages@.len() <= 0x7fff_ffff_ffff_ffff,
    ensures
        r.total_messages_sent == sent_count(messages@, user_id),
        r.total_messages_received == received_count(messages@, user_id),
        r.unread_messages == unread_message_count(messages@, user_id),
        r.active_conversations == partners(messages@, user_id).len(),
{
    let n = messages.len();
    let mut sent: i64 = 0;
    let mut received: i64 = 0;
    let mut unread: i64 = 0;
    let mut seen: Vec<u128> = Vec::new();
    let mut i: usize = 0;
    proof {
        assert(messages@.take(0) =~= Seq::<Message>::empty());
    }
    while i < n
        invariant
            i <= n,
            n == messages@.len(),
            n <= 0x7fff_ffff_ffff_ffff,
            0 <= sent <= i,
            0 <= received <= i,
            0 <= unread <= i,
            sent == sent_count(messages@.take(i as int), user_id),
            received == received_count(messages@.take(i as int), user_id),
            unread == unread_message_count(messages@.take(i as int), user_id),
            seen@.no_duplicates(),
            seen@.to_set() == partners(messages@.take(i as int), user_id),
            seen@.len() <= i,
        decreases n - i,
    {
        let ghost prefix = messages@.take(i as int);
        let ghost next = messages@.take(i as int + 1);
        proof {
            assert(next.drop_last() =~= prefix);
            assert(next.last() == messages@[i as int]);
        }
        let m = &messages[i];
        if m.sender_id == user_id {
            sent += 1;
        }
        if m.receiver_id == user_id {
            received += 1;
            if !m.is_read {
                unread += 1;
            }
        }
        if m.sender_id == user_id || m.receiver_id == user_id {
            let p: u128 = if m.sender_id == user_id {
                m.receiver_id
            } else {
                m.sender_id
            };
            if !contains_id(&seen, p) {
                let ghost pre_seen = seen@;
                seen.push(p);
                proof {
                    assert forall|a: int, b: int|
                        0 <= a < b < seen@.len() implies seen@[a] != seen@[b] by {
                        if b == pre_seen.len() {
                            assert(seen@[a] == pre_seen[a]);
                            assert(pre_seen.contains(pre_seen[a]));
                        }
                    }
                    assert(seen@.to_set() =~= pre_seen.to_set().insert(p)) by {
                        assert forall|x: u128| #[trigger]
                            seen@.contains(x) implies pre_seen.contains(x) || x == p by {
                            let k = choose|k: int| 0 <= k < seen@.len() && seen@[k] == x;
                            if k < pre_seen.len() {
                                assert(pre_seen[k] == x);
                            }
                        }
                        assert forall|x: u128|
                            pre_seen.contains(x) || x == p implies seen@.contains(x) by {
                            if pre_seen.contains(x) {
                                let k = choose|k: int|
                                    0 <= k < pre_seen.len() && pre_seen[k] == x;
                                assert(seen@[k] == x);
                            } else {
                                assert(seen@[pre_seen.len() as int] == p);
                            }
                        }
                    }
                }
            } else {
                proof {
                    assert(seen@.to_set().contains(p));
                    assert(partners(prefix, user_id).insert(p) =~= partners(prefix, user_id));
                }
            }
        }
        i += 1;
    }
    proof {
        assert(messages@.take(n as int) =~= messages@);
        seen@.unique_seq_to_set();
    }
    MessageStatsResponse {
        total_messages_sent: sent,
        total_messages_received: received,
        unread_messages: unread,
        active_conversations: seen.len() as i64,
    }
}

/// `marked` is `m` stamped read at `now`.
pub open spec fn marked(m: Message, now: i64) -> Message {
    Message { is_read: true, updated_at: now, ..m }
}

/// The message is addressed to the user, named in the request, and unread.
pub open spec fn should_mark(m: Message, ids: Seq<u128>, u: u128) -> bool {
    ids.contains(m.id) && m.receiver_id == u && !m.is_read
}

/// How many messages of the batch a mark-read request touches.
pub open spec fn marked_count(s: Seq<Message>, ids: Seq<u128>, u: u128) -> int
    decreases s.len(),
{
    if s.len() == 0 {
        0
    } else {
        marked_count(s.drop_last(), ids, u) + (if should_mark(s.last(), ids, u) {
            1int
        } else {
            0int
        })
    }
}

/// Marks as read every listed message that is addressed to the user and
/// still unread, stamps it with `now`, and reports how many were touched.
/// No other message changes.
pub fn mark_messages_read(
    messages: &mut Vec<Message>,
    message_ids: &Vec<u128>,
    user_id: u128,
    now: i64,
) -> (r: u64)
    requires
        old(messages)@.len() <= 0xffff_ffff_ffff_ffff,
    ensures
        final(messages)@.len() == old(messages)@.len(),
        forall|i: int|
            0 <= i < old(messages)@.len() ==> final(messages)@[i] == (if should_mark(
                old(messages)@[i],
                message_ids@,
                user_id,
            ) {
                marked(old(messages)@[i], now)
            } else {
                old(messages)@[i]
            }),
        r == marked_count(old(messages)@, message_ids@, user_id),
{
    let n = messages.len();
    let mut count: u64 = 0;
    let mut i: usize = 0;
    proof {
        assert(old(messages)@.take(0) =~= Seq::<Message>::empty());
    }
    while i < n
        invariant
            i <= n,
            n == old(messages)@.len(),
            n <= 0xffff_ffff_ffff_ffff,
            messages@.len() == n,
            0 <= count <= i,
            count == marked_count(old(messages)@.take(i as int), message_ids@, user_id),
            forall|j: int| i <= j < n ==> messages@[j] == old(messages)@[j],
            forall|j: int|
                0 <= j < i ==> messages@[j] == (if should_mark(
                    old(messages)@[j],
                    message_ids@,
                    user_id,
                ) {
                    marked(old(messages)@[j], now)
                } else {
                    old(messages)@[j]
                }),
        decreases n - i,
    {
        proof {
            assert(old(messages)@.take(i as int + 1).drop_last() =~= old(messages)@.take(
                i as int,
            ));
            assert(old(messages)@.take(i as int + 1).last() == old(messages)@[i as int]);
        }
        let wanted = contains_id(message_ids, messages[i].id);
        if wanted && messages[i].receiver_id == user_id && !messages[i].is_read {
            messages[i].is_read = true;
            messages[i].updated_at = now;
            count += 1;
        }
        i += 1;
    }
    proof {
        assert(old(messages)@.take(n as int) =~= old(messages)@);
    }
    count
}

/// Results of a metadata-bounded search; content itself rests encrypted and
/// is never searched server-side.
pub struct SearchResultsResponse {
    pub messages: Vec<MessageResponse>,
    pub total_matches: i64,
    pub has_more: bool,
}

/// A search query is acceptable when it has substance after trimming and at
/// least two bytes.
pub fn validate_search_query(query: &str) -> (r: bool)
    ensures
        r <==> (trim_of(query@).len() > 0 && query.len() >= 2),
{
    if crate::encoding::str_trim(query).is_empty() {
        return false;
    }
    query.len() >= 2
}

/// The paging window of a search request: the requested limit capped at 50
/// (20 when absent) and the requested offset (0 when absent).
pub fn search_window(limit: Option<i64>, offset: Option<i64>) -> (r: (i64, i64))
    ensures
        r.0 == (match limit {
            Some(l) => if l < 50 {
                l as int
            } else {
                50int
            },
            None => 20int,
        }),
        r.1 == (match offset {
            Some(o) => o as int,
            None => 0int,
        }),
{
    let l: i64 = match limit {
        Some(l) => if l < 50 {
            l
        } else {
            50
        },
        None => 20,
    };
    let o: i64 = match offset {
        Some(o) => o,
        None => 0,
    };
    (l, o)
}

/// The paging window of a conversation request: the requested limit capped
/// at 100, with 50 when absent.
pub fn conversation_window(limit: Option<i64>) -> (r: i64)
    ensures
        r == (match limit {
            Some(l) => if l < 100 {
                l as int
            } else {
                100int
            },
            None => 50int,
        }),
{
    match limit {
        Some(l) => if l < 100 {
            l
        } else {
            100
        },
        None => 50,
    }
}

/// Assembles one page of search results; a further page exists when the
/// window's end lies before the total match count.
pub fn search_results(
    messages: &Vec<Message>,
    current_user_id: u128,
    total_matches: i64,
    limit: i64,
    offset: i64,
) -> (r: SearchResultsResponse)
    ensures
        r.messages@.len() == messages@.len(),
        forall|i: int|
            0 <= i < messages@.len() ==> response_of(
                messages@[i],
                current_user_id,
                #[trigger] r.messages@[i],
            ),
        r.total_matches == total_matches,
        r.has_more == (offset + limit < total_matches),
{
    let rendered = map_responses(messages, current_user_id);
    let has_more: bool = match offset.checked_add(limit) {
        Some(end) => end < total_matches,
        None => {
            proof {
                assert(offset + limit < -0x8000_0000_0000_0000
                    || offset + limit > 0x7fff_ffff_ffff_ffff);
            }
            offset < 0 && limit < 0
        },
    };
    SearchResultsResponse { messages: rendered, total_matches, has_more }
}

} // verus!
