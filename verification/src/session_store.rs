//! Process-local cache of session keys, indexed both by conversation
//! identifier and by session-key identifier. Raw key material lives only
//! here; the durable store ever holds it wrapped.

use vstd::prelude::*;

verus! {

/// A conversation's symmetric key material: one 256-bit AES key and the
/// 96-bit nonce that belongs with it for this conversation's epoch.
pub struct SessionKey {
    pub key: Vec<u8>,
    pub nonce: Vec<u8>,
    pub session_id: u128,
    pub created_at: i64,
}

impl SessionKey {
    /// Well-formed key material: 32 key bytes and 12 nonce bytes.
    pub open spec fn wf(&self) -> bool {
        self.key@.len() == 32 && self.nonce@.len() == 12
    }
}

/// The two keys hold the same material and metadata.
pub open spec fn key_eq(a: SessionKey, b: SessionKey) -> bool {
    &&& a.key@ == b.key@
    &&& a.nonce@ == b.nonce@
    &&& a.session_id == b.session_id
    &&& a.created_at == b.created_at
}

/// Copies a byte vector.
pub fn clone_bytes(v: &Vec<u8>) -> (r: Vec<u8>)
    ensures
        r@ == v@,
{
    vstd::slice::slice_to_vec(v.as_slice())
}

/// Copies a session key, material and metadata alike.
pub fn clone_session_key(k: &SessionKey) -> (r: SessionKey)
    ensures
        key_eq(r, *k),
{
    SessionKey {
        key: clone_bytes(&k.key),
        nonce: clone_bytes(&k.nonce),
        session_id: k.session_id,
        created_at: k.created_at,
    }
}

/// One cache entry: the key active for one conversation.
pub struct SessionEntry {
    pub conversation_id: u128,
    pub key: SessionKey,
}

/// The first cached key for a conversation identifier, scanning in order.
pub open spec fn find_by_conversation(s: Seq<SessionEntry>, c: u128) -> Option<SessionKey>
    decreases s.len(),
{
    if s.len() == 0 {
        None
    } else if s[0].conversation_id == c {
        Some(s[0].key)
    } else {
        find_by_conversation(s.drop_first(), c)
    }
}

/// The first cached key with a given session-key identifier.
pub open spec fn find_by_session(s: Seq<SessionEntry>, sid: u128) -> Option<SessionKey>
    decreases s.len(),
{
    if s.len() == 0 {
        None
    } else if s[0].key.session_id == sid {
        Some(s[0].key)
    } else {
        find_by_session(s.drop_first(), sid)
    }
}

/// A conversation identifier is absent exactly when no entry carries it.
pub proof fn lemma_find_conversation_none(s: Seq<SessionEntry>, c: u128)
    ensures
        (find_by_conversation(s, c) is None) <==> (forall|i: int|
            0 <= i < s.len() ==> (#[trigger] s[i]).conversation_id != c),
    decreases s.len(),
{
    if s.len() > 0 {
        let t = s.drop_first();
        lemma_find_conversation_none(t, c);
        if s[0].conversation_id == c {
            assert(0 <= 0 < s.len() && s[0].conversation_id == c);
        } else if find_by_conversation(t, c) is None {
            assert forall|i: int|
                0 <= i < s.len() implies (#[trigger] s[i]).conversation_id != c by {
                if i > 0 {
                    assert(t[i - 1] == s[i]);
                }
            }
        } else {
            let j = choose|j: int| 0 <= j < t.len() && (#[trigger] t[j]).conversation_id == c;
            assert(s[j + 1] == t[j]);
            assert(s[j + 1].conversation_id == c);
        }
    }
}

/// A session identifier is absent exactly when no entry carries it.
pub proof fn lemma_find_session_none(s: Seq<SessionEntry>, sid: u128)
    ensures
        (find_by_session(s, sid) is None) <==> (forall|i: int|
            0 <= i < s.len() ==> (#[trigger] s[i]).key.session_id != sid),
    decreases s.len(),
{
    if s.len() > 0 {
        let t = s.drop_first();
        lemma_find_session_none(t, sid);
        if s[0].key.session_id == sid {
            assert(0 <= 0 < s.len() && s[0].key.session_id == sid);
        } else if find_by_session(t, sid) is None {
            assert forall|i: int|
                0 <= i < s.len() implies (#[trigger] s[i]).key.session_id != sid by {
                if i > 0 {
                    assert(t[i - 1] == s[i]);
                }
            }
        } else {
            let j = choose|j: int| 0 <= j < t.len() && (#[trigger] t[j]).key.session_id == sid;
            assert(s[j + 1] == t[j]);
            assert(s[j + 1].key.session_id == sid);
        }
    }
}

/// A key found by conversation is the key of one of the entries.
pub proof fn lemma_find_conversation_is_entry(s: Seq<SessionEntry>, c: u128)
    requires
        find_by_conversation(s, c) is Some,
    ensures
        exists|i: int|
            0 <= i < s.len() && (#[trigger] s[i]).conversation_id == c && Some(s[i].key)
                == find_by_conversation(s, c),
    decreases s.len(),
{
    if s[0].conversation_id == c {
        assert(s[0].conversation_id == c && Some(s[0].key) == find_by_conversation(s, c));
    } else {
        let t = s.drop_first();
        lemma_find_conversation_is_entry(t, c);
        let j = choose|j: int|
            0 <= j < t.len() && (#[trigger] t[j]).conversation_id == c && Some(t[j].key)
                == find_by_conversation(t, c);
        assert(s[j + 1] == t[j]);
        assert(s[j + 1].conversation_id == c && Some(s[j + 1].key) == find_by_conversation(s, c));
    }
}

/// A key found by session id is the key of one of the entries.
pub proof fn lemma_find_session_is_entry(s: Seq<SessionEntry>, sid: u128)
    requires
        find_by_session(s, sid) is Some,
    ensures
        exists|i: int|
            0 <= i < s.len() && (#[trigger] s[i]).key.session_id == sid && Some(s[i].key)
                == find_by_session(s, sid),
    decreases s.len(),
{
    if s[0].key.session_id == sid {
        assert(s[0].key.session_id == sid && Some(s[0].key) == find_by_session(s, sid));
    } else {
        let t = s.drop_first();
        lemma_find_session_is_entry(t, sid);
        let j = choose|j: int|
            0 <= j < t.len() && (#[trigger] t[j]).key.session_id == sid && Some(t[j].key)
                == find_by_session(t, sid);
        assert(s[j + 1] == t[j]);
        assert(s[j + 1].key.session_id == sid && Some(s[j + 1].key) == find_by_session(s, sid));
    }
}

/// Appending an entry leaves earlier conversations' lookups unchanged and
/// makes the new conversation found.
pub proof fn lemma_find_conversation_push(s: Seq<SessionEntry>, e: SessionEntry, c: u128)
    ensures
        find_by_conversation(s.push(e), c) == (if find_by_conversation(s, c) is Some {
            find_by_conversation(s, c)
        } else if e.conversation_id == c {
            Some(e.key)
        } else {
            None
        }),
    decreases s.len(),
{
    if s.len() == 0 {
        assert(s.push(e).drop_first() =~= Seq::<SessionEntry>::empty());
        assert(find_by_conversation(Seq::<SessionEntry>::empty(), c) is None);
    } else {
        assert(s.push(e).drop_first() =~= s.drop_first().push(e));
        lemma_find_conversation_push(s.drop_first(), e, c);
    }
}

/// In-process cache mapping conversation identifier to the active session
/// key, with a secondary index by session-key identifier.
pub struct SessionKeyStore {
    pub entries: Vec<SessionEntry>,
}

/// The cache can accept a key for a conversation: either the slot is free
/// and the session id unused, or the very same session already sits there.
pub open spec fn cache_accepts(s: Seq<SessionEntry>, c: u128, sid: u128) -> bool {
    match find_by_conversation(s, c) {
        Some(k) => k.session_id == sid,
        None => find_by_session(s, sid) is None,
    }
}

impl SessionKeyStore {
    /// Every entry is well-formed and both indexes are unambiguous: no two
    /// entries share a conversation identifier or a session identifier.
    pub open spec fn wf(&self) -> bool {
        &&& (forall|i: int|
            0 <= i < self.entries@.len() ==> (#[trigger] self.entries@[i]).key.wf())
        &&& (forall|i: int, j: int|
            0 <= i < j < self.entries@.len() ==> self.entries@[i].conversation_id
                != self.entries@[j].conversation_id)
        &&& (forall|i: int, j: int|
            0 <= i < j < self.entries@.len() ==> self.entries@[i].key.session_id
                != self.entries@[j].key.session_id)
    }

    /// An empty cache.
    pub fn new() -> (r: Self)
        ensures
            r.wf(),
            r.entries@.len() == 0,
    {
        SessionKeyStore { entries: Vec::new() }
    }

    /// The key cached for a conversation, if any.
    pub fn get_by_conversation(&self, conversation_id: u128) -> (r: Option<&SessionKey>)
        ensures
            (match r {
                Some(k) => find_by_conversation(self.entries@, conversation_id) == Some(*k),
                None => find_by_conversation(self.entries@, conversation_id) is None,
            }),
    {
        let n = self.entries.len();
        proof {
            assert(self.entries@.subrange(0, n as int) =~= self.entries@);
        }
        let mut i: usize = 0;
        while i < n
            invariant
                i <= n,
                n == self.entries@.len(),
                find_by_conversation(self.entries@, conversation_id) == find_by_conversation(
                    self.entries@.subrange(i as int, n as int),
                    conversation_id,
                ),
            decreases n - i,
        {
            proof {
                assert(self.entries@.subrange(i as int, n as int)[0] == self.entries@[i as int]);
                assert(self.entries@.subrange(i as int, n as int).drop_first() =~= self
                    .entries@.subrange(i as int + 1, n as int));
            }
            if self.entries[i].conversation_id == conversation_id {
                return Some(&self.entries[i].key);
            }
            i += 1;
        }
        proof {
            assert(self.entries@.subrange(n as int, n as int) =~= Seq::<SessionEntry>::empty());
        }
        None
    }

    /// The key cached under a session-key identifier, if any.
    pub fn get_by_session(&self, session_id: u128) -> (r: Option<&SessionKey>)
        ensures
            (match r {
                Some(k) => find_by_session(self.entries@, session_id) == Some(*k),
                None => find_by_session(self.entries@, session_id) is None,
            }),
    {
        let n = self.entries.len();
        proof {
            assert(self.entries@.subrange(0, n as int) =~= self.entries@);
        }
        let mut i: usize = 0;
        while i < n
            invariant
                i <= n,
                n == self.entries@.len(),
                find_by_session(self.entries@, session_id) == find_by_session(
                    self.entries@.subrange(i as int, n as int),
                    session_id,
                ),
            decreases n - i,
        {
            proof {
                assert(self.entries@.subrange(i as int, n as int)[0] == self.entries@[i as int]);
                assert(self.entries@.subrange(i as int, n as int).drop_first() =~= self
                    .entries@.subrange(i as int + 1, n as int));
            }
            if self.entries[i].key.session_id == session_id {
                return Some(&self.entries[i].key);
            }
            i += 1;
        }
        proof {
            assert(self.entries@.subrange(n as int, n as int) =~= Seq::<SessionEntry>::empty());
        }
        None
    }

    /// Idempotent insert. Caching the session that already sits under the
    /// conversation is a no-op; a different key for an occupied conversation,
    /// or a session id already bound elsewhere, is refused and the cache is
    /// left unchanged.
    pub fn insert(&mut self, conversation_id: u128, session_key: SessionKey) -> (r: bool)
        requires
            old(self).wf(),
            session_key.wf(),
        ensures
            final(self).wf(),
            r == cache_accepts(old(self).entries@, conversation_id, session_key.session_id),
            r ==> (match find_by_conversation(old(self).entries@, conversation_id) {
                Some(_) => final(self).entries@ == old(self).entries@,
                None => final(self).entries@ == old(self).entries@.push(
                    SessionEntry { conversation_id, key: session_key },
                ),
            }),
            !r ==> final(self).entries@ == old(self).entries@,
            r ==> (exists|k: SessionKey|
                find_by_conversation(final(self).entries@, conversation_id) == Some(k)
                    && k.session_id == session_key.session_id),
    {
        let existing_session = match self.get_by_conversation(conversation_id) {
            Some(k) => Some(k.session_id),
            None => None,
        };
        match existing_session {
            Some(sid) => sid == session_key.session_id,
            None => {
                if self.get_by_session(session_key.session_id).is_some() {
                    return false;
                }
                proof {
                    lemma_find_conversation_none(self.entries@, conversation_id);
                    lemma_find_session_none(self.entries@, session_key.session_id);
                }
                let ghost pre = self.entries@;
                let new_entry = SessionEntry { conversation_id, key: session_key };
                let ghost entry = new_entry;
                self.entries.push(new_entry);
                proof {
                    assert(self.entries@ == pre.push(entry));
                    lemma_find_conversation_push(pre, entry, conversation_id);
                    assert forall|i: int, j: int|
                        0 <= i < j < self.entries@.len() implies self.entries@[i].conversation_id
                        != self.entries@[j].conversation_id by {
                        if j == pre.len() {
                            assert(self.entries@[i] == pre[i]);
                        }
                    }
                    assert forall|i: int, j: int|
                        0 <= i < j < self.entries@.len() implies self.entries@[i].key.session_id
                        != self.entries@[j].key.session_id by {
                        if j == pre.len() {
                            assert(self.entries@[i] == pre[i]);
                        }
                    }
                }
                true
            },
        }
    }
}

} // verus!
