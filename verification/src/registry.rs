//! Connection registry: which users are live right now and under which
//! delivery handle. Connecting replaces any prior handle for the same user
//! (last writer wins); disconnecting removes the entry only if the handle
//! being removed is still the current one, so a stale teardown cannot evict
//! a fresh reconnect.

use vstd::prelude::*;

use crate::encoding::trim_of;
use crate::messages::Message;

verus! {

broadcast use vstd::slice::group_slice_axioms;

/// One live connection: exactly one entry per connected user.
pub struct PresenceEntry {
    pub user_id: u128,
    pub handle: u64,
}

/// The handle registered for a user, scanning entries in order.
pub open spec fn find_handle(s: Seq<PresenceEntry>, u: u128) -> Option<u64>
    decreases s.len(),
{
    if s.len() == 0 {
        None
    } else if s[0].user_id == u {
        Some(s[0].handle)
    } else {
        find_handle(s.drop_first(), u)
    }
}

/// No two entries claim the same user.
pub open spec fn unique_users(s: Seq<PresenceEntry>) -> bool {
    forall|i: int, j: int|
        0 <= i < j < s.len() ==> s[i].user_id != s[j].user_id
}

/// What connecting does to the registry: the user is now addressed by the
/// new handle, every other user's entry is untouched, and the entry count
/// grows only if the user was absent.
pub open spec fn add_session_post(
    pre: Seq<PresenceEntry>,
    post: Seq<PresenceEntry>,
    u: u128,
    h: u64,
) -> bool {
    &&& find_handle(post, u) == Some(h)
    &&& (forall|v: u128| v != u ==> find_handle(post, v) == find_handle(pre, v))
    &&& post.len() == (if find_handle(pre, u) is Some {
        pre.len()
    } else {
        pre.len() + 1
    })
}

/// What disconnecting does: only when the departing handle is still the
/// current one is the entry dropped; a stale handle changes nothing.
pub open spec fn remove_session_post(
    pre: Seq<PresenceEntry>,
    post: Seq<PresenceEntry>,
    u: u128,
    h: u64,
) -> bool {
    if find_handle(pre, u) == Some(h) {
        &&& find_handle(post, u) is None
        &&& (forall|v: u128| v != u ==> find_handle(post, v) == find_handle(pre, v))
        &&& post.len() == pre.len() - 1
    } else {
        post == pre
    }
}

/// A user is absent exactly when no entry carries it.
pub proof fn lemma_find_handle_none(s: Seq<PresenceEntry>, u: u128)
    ensures
        (find_handle(s, u) is None) <==> (forall|i: int|
            0 <= i < s.len() ==> (#[trigger] s[i]).user_id != u),
    decreases s.len(),
{
    if s.len() > 0 {
        let t = s.drop_first();
        lemma_find_handle_none(t, u);
        if s[0].user_id == u {
            assert(0 <= 0 < s.len() && s[0].user_id == u);
        } else if find_handle(t, u) is None {
            assert forall|i: int| 0 <= i < s.len() implies (#[trigger] s[i]).user_id != u by {
                if i > 0 {
                    assert(t[i - 1] == s[i]);
                }
            }
        } else {
            let j = choose|j: int| 0 <= j < t.len() && (#[trigger] t[j]).user_id == u;
            assert(s[j + 1] == t[j]);
            assert(s[j + 1].user_id == u);
        }
    }
}

/// Dropping the first entry keeps the users pairwise distinct.
proof fn lemma_unique_drop_first(s: Seq<PresenceEntry>)
    requires
        unique_users(s),
        s.len() > 0,
    ensures
        unique_users(s.drop_first()),
{
    let t = s.drop_first();
    assert forall|i: int, j: int|
        0 <= i < j < t.len() implies t[i].user_id != t[j].user_id by {
        assert(t[i] == s[i + 1]);
        assert(t[j] == s[j + 1]);
    }
}

/// Replacing the entry at `i` by one for the same user re-addresses exactly
/// that user and leaves every other lookup unchanged.
proof fn lemma_find_handle_update(s: Seq<PresenceEntry>, i: int, e: PresenceEntry)
    requires
        unique_users(s),
        0 <= i < s.len(),
        e.user_id == s[i].user_id,
    ensures
        find_handle(s.update(i, e), e.user_id) == Some(e.handle),
        forall|v: u128| v != e.user_id ==> find_handle(s.update(i, e), v) == find_handle(s, v),
    decreases s.len(),
{
    let upd = s.update(i, e);
    if i == 0 {
        assert(upd[0] == e);
        assert(upd.drop_first() =~= s.drop_first());
        assert forall|v: u128|
            v != e.user_id implies find_handle(upd, v) == find_handle(s, v) by {}
    } else {
        assert(upd[0] == s[0]);
        assert(upd.drop_first() =~= s.drop_first().update(i - 1, e));
        lemma_unique_drop_first(s);
        assert(s.drop_first()[i - 1] == s[i]);
        lemma_find_handle_update(s.drop_first(), i - 1, e);
        assert(s[0].user_id != s[i].user_id);
        assert forall|v: u128|
            v != e.user_id implies find_handle(upd, v) == find_handle(s, v) by {
            if s[0].user_id != v {
                assert(find_handle(upd, v) == find_handle(upd.drop_first(), v));
                assert(find_handle(s, v) == find_handle(s.drop_first(), v));
            }
        }
    }
}

/// Removing the entry at `i` makes its user absent and leaves every other
/// lookup unchanged.
proof fn lemma_find_handle_remove(s: Seq<PresenceEntry>, i: int)
    requires
        unique_users(s),
        0 <= i < s.len(),
    ensures
        find_handle(s.remove(i), s[i].user_id) is None,
        forall|v: u128| v != s[i].user_id ==> find_handle(s.remove(i), v) == find_handle(s, v),
        unique_users(s.remove(i)),
    decreases s.len(),
{
    let rem = s.remove(i);
    assert forall|a: int, b: int|
        0 <= a < b < rem.len() implies rem[a].user_id != rem[b].user_id by {
        assert(rem[a] == (if a < i {
            s[a]
        } else {
            s[a + 1]
        }));
        assert(rem[b] == (if b < i {
            s[b]
        } else {
            s[b + 1]
        }));
    }
    if i == 0 {
        assert(rem =~= s.drop_first());
        lemma_find_handle_none(s.drop_first(), s[0].user_id);
        assert forall|k: int|
            0 <= k < s.drop_first().len() implies (#[trigger] s.drop_first()[k]).user_id != s[0].user_id by {
            assert(s.drop_first()[k] == s[k + 1]);
        }
    } else {
        assert(rem[0] == s[0]);
        assert(rem.drop_first() =~= s.drop_first().remove(i - 1));
        lemma_unique_drop_first(s);
        assert(s.drop_first()[i - 1] == s[i]);
        lemma_find_handle_remove(s.drop_first(), i - 1);
        assert(s[0].user_id != s[i].user_id);
        assert forall|v: u128|
            v != s[i].user_id implies find_handle(rem, v) == find_handle(s, v) by {
            if s[0].user_id != v {
                assert(find_handle(rem, v) == find_handle(rem.drop_first(), v));
                assert(find_handle(s, v) == find_handle(s.drop_first(), v));
            }
        }
    }
}

/// Tracks the live delivery handle of every connected user and decides
/// where ciphertext, presence and typing events go.
pub struct SessionManager {
    pub entries: Vec<PresenceEntry>,
}

impl SessionManager {
    /// At most one entry per user.
    pub open spec fn wf(&self) -> bool {
        unique_users(self.entries@)
    }

    /// An empty registry.
    pub fn new() -> (r: Self)
        ensures
            r.wf(),
            r.entries@.len() == 0,
    {
        SessionManager { entries: Vec::new() }
    }

    /// The index of a user's entry, if one exists.
    fn position_of(&self, user_id: u128) -> (r: Option<usize>)
        ensures
            (match r {
                Some(i) => i < self.entries@.len() && self.entries@[i as int].user_id == user_id,
                None => forall|i: int|
                    0 <= i < self.entries@.len() ==> (#[trigger] self.entries@[i]).user_id
                        != user_id,
            }),
    {
        let n = self.entries.len();
        let mut i: usize = 0;
        while i < n
            invariant
                i <= n,
                n == self.entries@.len(),
                forall|j: int|
                    0 <= j < i ==> (#[trigger] self.entries@[j]).user_id != user_id,
            decreases n - i,
        {
            if self.entries[i].user_id == user_id {
                return Some(i);
            }
            i += 1;
        }
        None
    }

    /// Connects a user: registers the handle, replacing any prior entry for
    /// the same user (last writer wins).
    pub fn add_session(&mut self, user_id: u128, handle: u64)
        requires
            old(self).wf(),
        ensures
            final(self).wf(),
            add_session_post(old(self).entries@, final(self).entries@, user_id, handle),
    {
        let entry = PresenceEntry { user_id, handle };
        match self.position_of(user_id) {
            Some(i) => {
                proof {
                    lemma_find_handle_at(self.entries@, i as int);
                    lemma_find_handle_update(self.entries@, i as int, entry);
                }
                self.entries[i] = entry;
                proof {
                    assert forall|a: int, b: int|
                        0 <= a < b < self.entries@.len() implies self.entries@[a].user_id
                        != self.entries@[b].user_id by {}
                }
            },
            None => {
                proof {
                    lemma_find_handle_none(self.entries@, user_id);
                    lemma_find_handle_push(self.entries@, entry, user_id);
                    assert forall|v: u128|
                        v != user_id implies find_handle(
                        self.entries@.push(entry),
                        v,
                    ) == find_handle(self.entries@, v) by {
                        lemma_find_handle_push(self.entries@, entry, v);
                    }
                }
                let ghost pre = self.entries@;
                self.entries.push(entry);
                proof {
                    assert forall|a: int, b: int|
                        0 <= a < b < self.entries@.len() implies self.entries@[a].user_id
                        != self.entries@[b].user_id by {
                        if b == pre.len() {
                            assert(self.entries@[a] == pre[a]);
                        }
                    }
                }
            },
        }
    }

    /// Disconnects a user, but only if the departing handle is still the
    /// current one: a stale teardown racing a fresh reconnect changes
    /// nothing.
    pub fn remove_session(&mut self, user_id: u128, handle: u64)
        requires
            old(self).wf(),
        ensures
            final(self).wf(),
            remove_session_post(old(self).entries@, final(self).entries@, user_id, handle),
    {
        match self.position_of(user_id) {
            Some(i) => {
                proof {
                    lemma_find_handle_at(self.entries@, i as int);
                }
                if self.entries[i].handle == handle {
                    proof {
                        lemma_find_handle_remove(self.entries@, i as int);
                    }
                    self.entries.remove(i);
                }
            },
            None => {
                proof {
                    lemma_find_handle_none(self.entries@, user_id);
                }
            },
        }
    }

    /// The delivery decision: the live handle to forward a payload to, or
    /// `None` when the user has no entry — the caller then falls back to
    /// offline delivery. Takes no lock on the recipient and performs no
    /// side effect.
    pub fn route_to(&self, user_id: u128) -> (r: Option<u64>)
        ensures
            r == find_handle(self.entries@, user_id),
            r is None <==> find_handle(self.entries@, user_id) is None,
    {
        let n = self.entries.len();
        let mut i: usize = 0;
        proof {
            assert(self.entries@.subrange(0, n as int) =~= self.entries@);
        }
        while i < n
            invariant
                i <= n,
                n == self.entries@.len(),
                find_handle(self.entries@, user_id) == find_handle(
                    self.entries@.subrange(i as int, n as int),
                    user_id,
                ),
            decreases n - i,
        {
            proof {
                assert(self.entries@.subrange(i as int, n as int)[0] == self.entries@[i as int]);
                assert(self.entries@.subrange(i as int, n as int).drop_first() =~= self
                    .entries@.subrange(i as int + 1, n as int));
            }
            if self.entries[i].user_id == user_id {
                return Some(self.entries[i].handle);
            }
            i += 1;
        }
        proof {
            assert(self.entries@.subrange(n as int, n as int) =~= Seq::<PresenceEntry>::empty());
        }
        None
    }

    /// The registered handle of a user, if any.
    pub fn get_user_session(&self, user_id: u128) -> (r: Option<u64>)
        ensures
            r == find_handle(self.entries@, user_id),
    {
        self.route_to(user_id)
    }

    /// How many users are connected right now; advisory, since the registry
    /// is mutated concurrently.
    pub fn connected_count(&self) -> (r: usize)
        ensures
            r == self.entries@.len(),
    {
        self.entries.len()
    }

    /// The handles of every connected user, for a best-effort broadcast:
    /// the caller notifies each and failures on one must not stop the rest.
    pub fn broadcast(&self) -> (r: Vec<u64>)
        ensures
            r@.len() == self.entries@.len(),
            forall|i: int| 0 <= i < r@.len() ==> r@[i] == self.entries@[i].handle,
    {
        let n = self.entries.len();
        let mut out: Vec<u64> = Vec::new();
        let mut i: usize = 0;
        while i < n
            invariant
                i <= n,
                n == self.entries@.len(),
                out@.len() == i,
                forall|j: int| 0 <= j < i ==> out@[j] == self.entries@[j].handle,
            decreases n - i,
        {
            out.push(self.entries[i].handle);
            i += 1;
        }
        out
    }
}

/// The entry at an index is what lookup by its user finds.
pub proof fn lemma_find_handle_at(s: Seq<PresenceEntry>, i: int)
    requires
        unique_users(s),
        0 <= i < s.len(),
    ensures
        find_handle(s, s[i].user_id) == Some(s[i].handle),
    decreases s.len(),
{
    if i > 0 {
        lemma_unique_drop_first(s);
        assert(s.drop_first()[i - 1] == s[i]);
        lemma_find_handle_at(s.drop_first(), i - 1);
        assert(s[0].user_id != s[i].user_id);
    }
}

/// Appending an entry for an absent user leaves other lookups unchanged.
pub proof fn lemma_find_handle_push(s: Seq<PresenceEntry>, e: PresenceEntry, u: u128)
    ensures
        find_handle(s.push(e), u) == (if find_handle(s, u) is Some {
            find_handle(s, u)
        } else if e.user_id == u {
            Some(e.handle)
        } else {
            None
        }),
    decreases s.len(),
{
    if s.len() == 0 {
        assert(s.push(e).drop_first() =~= Seq::<PresenceEntry>::empty());
        assert(find_handle(Seq::<PresenceEntry>::empty(), u) is None);
    } else {
        assert(s.push(e).drop_first() =~= s.drop_first().push(e));
        lemma_find_handle_push(s.drop_first(), e, u);
    }
}

/// A frame a connected client sends in.
pub enum IncomingMessage {
    SendMessage { to: u128, content: String },
    Ping,
    MarkRead { message_id: u128 },
    Typing { to: u128, is_typing: bool },
}

/// A frame the service sends out to a client.
#[derive(Debug)]
pub enum OutgoingMessage {
    NewMessage { id: u128, from: u128, content: String, timestamp: i64 },
    Pong,
    Error { message: String },
    UserOnline { user_id: u128 },
    UserOffline { user_id: u128 },
    TypingIndicator { from: u128, is_typing: bool },
    ReadReceipt { message_id: u128, read_by: u128 },
}

/// What handling one inbound frame requires of the connection layer.
#[derive(Debug)]
pub enum FrameAction {
    /// Send a frame back on the sender's own connection.
    Reply(OutgoingMessage),
    /// Persist the message for the receiver, then deliver it if a live
    /// handle exists (see `delivery_for`).
    PersistAndDeliver { receiver_id: u128, content: String },
    /// Mark a stored message read on the reader's behalf.
    MarkStoredRead { message_id: u128, reader: u128 },
    /// Forward a frame to a live peer, fire-and-forget.
    Forward { to_handle: u64, message: OutgoingMessage },
    /// Nothing to do.
    Ignore,
}

/// The limit on a message's size in bytes.
pub const MAX_MESSAGE_BYTES: usize = 4000;

/// Decides what one inbound frame demands, without performing any of it:
/// a message must have substance and fit the size limit before it is
/// persisted; a ping is answered; a typing indicator is forwarded only to a
/// live peer and dropped otherwise. The decision reads the registry and
/// changes nothing.
pub fn handle_frame(registry: &SessionManager, sender_id: u128, frame: IncomingMessage) -> (r:
    FrameAction)
    ensures
        (match frame {
            IncomingMessage::SendMessage { to, content } => {
                if trim_of(content@).len() == 0 {
                    r matches FrameAction::Reply(OutgoingMessage::Error { message })
                        && message@ == "Message content cannot be empty"@
                } else if vstd::utf8::encode_utf8(content@).len() > MAX_MESSAGE_BYTES {
                    r matches FrameAction::Reply(OutgoingMessage::Error { message })
                        && message@ == "Message too long (max 4000 characters)"@
                } else {
                    r matches FrameAction::PersistAndDeliver { receiver_id, content: c }
                        && receiver_id == to && c@ == content@
                }
            },
            IncomingMessage::Ping => r matches FrameAction::Reply(OutgoingMessage::Pong),
            IncomingMessage::MarkRead { message_id } => r matches FrameAction::MarkStoredRead {
                message_id: m,
                reader,
            } && m == message_id && reader == sender_id,
            IncomingMessage::Typing { to, is_typing } => (match find_handle(
                registry.entries@,
                to,
            ) {
                Some(h) => r matches FrameAction::Forward { to_handle, message }
                    && to_handle == h && (message matches OutgoingMessage::TypingIndicator {
                    from,
                    is_typing: t,
                } && from == sender_id && t == is_typing),
                None => r matches FrameAction::Ignore,
            }),
        }),
{
    match frame {
        IncomingMessage::SendMessage { to, content } => {
            if crate::encoding::str_trim(content.as_str()).is_empty() {
                return FrameAction::Reply(
                    OutgoingMessage::Error {
                        message: "Message content cannot be empty".to_owned(),
                    },
                );
            }
            if content.as_str().as_bytes().len() > MAX_MESSAGE_BYTES {
                return FrameAction::Reply(
                    OutgoingMessage::Error {
                        message: "Message too long (max 4000 characters)".to_owned(),
                    },
                );
            }
            FrameAction::PersistAndDeliver { receiver_id: to, content }
        },
        IncomingMessage::Ping => FrameAction::Reply(OutgoingMessage::Pong),
        IncomingMessage::MarkRead { message_id } => FrameAction::MarkStoredRead {
            message_id,
            reader: sender_id,
        },
        IncomingMessage::Typing { to, is_typing } => match registry.route_to(to) {
            Some(to_handle) => FrameAction::Forward {
                to_handle,
                message: OutgoingMessage::TypingIndicator { from: sender_id, is_typing },
            },
            None => FrameAction::Ignore,
        },
    }
}

/// Where a freshly persisted message goes: the receiver's live handle and
/// the frame to put on it, or nothing — the caller then leaves it for
/// offline retrieval. The stored ciphertext is forwarded as it rests.
pub fn delivery_for(registry: &SessionManager, message: &Message) -> (r: Option<(
    u64,
    OutgoingMessage,
)>)
    ensures
        (match find_handle(registry.entries@, message.receiver_id) {
            Some(h) => r matches Some((to_handle, out)) && to_handle == h
                && (out matches OutgoingMessage::NewMessage { id, from, content, timestamp }
                && id == message.id && from == message.sender_id && content@
                == message.encrypted_content@ && timestamp == message.created_at),
            None => r is None,
        }),
{
    match registry.route_to(message.receiver_id) {
        Some(to_handle) => Some(
            (
                to_handle,
                OutgoingMessage::NewMessage {
                    id: message.id,
                    from: message.sender_id,
                    content: message.encrypted_content.clone(),
                    timestamp: message.created_at,
                },
            ),
        ),
        None => None,
    }
}

/// The presence frame announcing that a user came online or went offline;
/// the caller hands it to every handle `broadcast` returns, best-effort.
pub fn presence_message(user_id: u128, online: bool) -> (r: OutgoingMessage)
    ensures
        online ==> (r matches OutgoingMessage::UserOnline { user_id: u } && u == user_id),
        !online ==> (r matches OutgoingMessage::UserOffline { user_id: u } && u == user_id),
{
    if online {
        OutgoingMessage::UserOnline { user_id }
    } else {
        OutgoingMessage::UserOffline { user_id }
    }
}

/// Handle replacement: connecting a user twice leaves one entry addressed
/// by the second handle, and a later disconnect of the first, stale handle
/// leaves that entry intact.
pub proof fn lemma_handle_replacement(
    s0: Seq<PresenceEntry>,
    s1: Seq<PresenceEntry>,
    s2: Seq<PresenceEntry>,
    s3: Seq<PresenceEntry>,
    u: u128,
    h1: u64,
    h2: u64,
)
    requires
        h1 != h2,
        add_session_post(s0, s1, u, h1),
        add_session_post(s1, s2, u, h2),
        remove_session_post(s2, s3, u, h1),
    ensures
        s3 == s2,
        find_handle(s3, u) == Some(h2),
        s2.len() == (if find_handle(s0, u) is Some {
            s0.len()
        } else {
            s0.len() + 1
        }),
{
}

} // verus!
