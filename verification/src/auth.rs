//! What the core decides about callers once an external authenticator has
//! identified them: coarse permissions, the shape a bearer token must have
//! before it is worth verifying, and a sliding-window rate limit per caller.

use vstd::prelude::*;
use vstd::string::StringSliceAdditionalSpecFns;

verus! {

/// Credentials a client presents to the authentication routes.
pub struct AuthPayload {
    pub email: String,
    pub password: String,
}

/// What an authenticated caller may ask for.
#[derive(Clone, Copy, PartialEq, Eq, Structural, Debug)]
pub enum Permission {
    ReadMessages,
    SendMessages,
    ManageUsers,
    ViewAnalytics,
}

/// Every authenticated user reads and sends messages; managing users and
/// viewing analytics take the administrator role.
pub fn check_permission(role: &Option<String>, permission: Permission) -> (r: bool)
    ensures
        r == (match permission {
            Permission::ReadMessages | Permission::SendMessages => true,
            Permission::ManageUsers | Permission::ViewAnalytics => role matches Some(s) && s@
                == "admin"@,
        }),
{
    match permission {
        Permission::ReadMessages | Permission::SendMessages => true,
        Permission::ManageUsers | Permission::ViewAnalytics => match role {
            Some(s) => s.eq(&"admin".to_owned()),
            None => false,
        },
    }
}

/// A bearer token is worth passing to the verifier only if it is non-empty
/// and no longer than 2048 bytes.
pub fn token_format_ok(token: &str) -> (r: bool)
    ensures
        r <==> (token@.len() > 0 && token.len() <= 2048),
{
    if token.is_empty() {
        return false;
    }
    token.len() <= 2048
}

/// One caller's standing in the current window.
pub struct RateLimitEntry {
    pub caller: u128,
    pub count: u32,
    pub window_start: i64,
}

/// The count and window start recorded for a caller.
pub open spec fn find_caller(s: Seq<RateLimitEntry>, c: u128) -> Option<(u32, i64)>
    decreases s.len(),
{
    if s.len() == 0 {
        None
    } else if s[0].caller == c {
        Some((s[0].count, s[0].window_start))
    } else {
        find_caller(s.drop_first(), c)
    }
}

/// No two entries track the same caller.
pub open spec fn unique_callers(s: Seq<RateLimitEntry>) -> bool {
    forall|i: int, j: int| 0 <= i < j < s.len() ==> s[i].caller != s[j].caller
}

/// A caller is absent exactly when no entry tracks it.
proof fn lemma_find_caller_none(s: Seq<RateLimitEntry>, c: u128)
    ensures
        (find_caller(s, c) is None) <==> (forall|i: int|
            0 <= i < s.len() ==> (#[trigger] s[i]).caller != c),
    decreases s.len(),
{
    if s.len() > 0 {
        let t = s.drop_first();
        lemma_find_caller_none(t, c);
        if s[0].caller == c {
            assert(0 <= 0 < s.len() && s[0].caller == c);
        } else if find_caller(t, c) is None {
            assert forall|i: int| 0 <= i < s.len() implies (#[trigger] s[i]).caller != c by {
                if i > 0 {
                    assert(t[i - 1] == s[i]);
                }
            }
        } else {
            let j = choose|j: int| 0 <= j < t.len() && (#[trigger] t[j]).caller == c;
            assert(s[j + 1] == t[j]);
            assert(s[j + 1].caller == c);
        }
    }
}

/// Appending an entry for an absent caller leaves other lookups unchanged.
proof fn lemma_find_caller_push(s: Seq<RateLimitEntry>, e: RateLimitEntry, c: u128)
    ensures
        find_caller(s.push(e), c) == (if find_caller(s, c) is Some {
            find_caller(s, c)
        } else if e.caller == c {
            Some((e.count, e.window_start))
        } else {
            None
        }),
    decreases s.len(),
{
    if s.len() == 0 {
        assert(s.push(e).drop_first() =~= Seq::<RateLimitEntry>::empty());
        assert(find_caller(Seq::<RateLimitEntry>::empty(), c) is None);
    } else {
        assert(s.push(e).drop_first() =~= s.drop_first().push(e));
        lemma_find_caller_push(s.drop_first(), e, c);
    }
}

/// Dropping the first entry keeps the callers pairwise distinct.
proof fn lemma_unique_callers_drop_first(s: Seq<RateLimitEntry>)
    requires
        unique_callers(s),
        s.len() > 0,
    ensures
        unique_callers(s.drop_first()),
{
    let t = s.drop_first();
    assert forall|i: int, j: int| 0 <= i < j < t.len() implies t[i].caller != t[j].caller by {
        assert(t[i] == s[i + 1]);
        assert(t[j] == s[j + 1]);
    }
}

/// The entry at an index is what lookup by its caller finds.
proof fn lemma_find_caller_at(s: Seq<RateLimitEntry>, i: int)
    requires
        unique_callers(s),
        0 <= i < s.len(),
    ensures
        find_caller(s, s[i].caller) == Some((s[i].count, s[i].window_start)),
    decreases s.len(),
{
    if i > 0 {
        lemma_unique_callers_drop_first(s);
        assert(s.drop_first()[i - 1] == s[i]);
        lemma_find_caller_at(s.drop_first(), i - 1);
        assert(s[0].caller != s[i].caller);
    }
}

/// Replacing the entry at `i` by one for the same caller re-addresses
/// exactly that caller and leaves every other lookup unchanged.
proof fn lemma_find_caller_update(s: Seq<RateLimitEntry>, i: int, e: RateLimitEntry)
    requires
        unique_callers(s),
        0 <= i < s.len(),
        e.caller == s[i].caller,
    ensures
        find_caller(s.update(i, e), e.caller) == Some((e.count, e.window_start)),
        forall|v: u128| v != e.caller ==> find_caller(s.update(i, e), v) == find_caller(s, v),
    decreases s.len(),
{
    let upd = s.update(i, e);
    if i == 0 {
        assert(upd[0] == e);
        assert(upd.drop_first() =~= s.drop_first());
        assert forall|v: u128| v != e.caller implies find_caller(upd, v) == find_caller(s, v) by {}
    } else {
        assert(upd[0] == s[0]);
        assert(upd.drop_first() =~= s.drop_first().update(i - 1, e));
        lemma_unique_callers_drop_first(s);
        assert(s.drop_first()[i - 1] == s[i]);
        lemma_find_caller_update(s.drop_first(), i - 1, e);
        assert(s[0].caller != s[i].caller);
        assert forall|v: u128| v != e.caller implies find_caller(upd, v) == find_caller(s, v) by {
            if s[0].caller != v {
                assert(find_caller(upd, v) == find_caller(upd.drop_first(), v));
                assert(find_caller(s, v) == find_caller(s.drop_first(), v));
            }
        }
    }
}

/// The sliding-window decision for one caller: a request passes when the
/// window has lapsed or the window's budget is not yet spent.
pub open spec fn rate_limit_allows(
    entry: Option<(u32, i64)>,
    now: i64,
    max_requests: u32,
    window_duration_seconds: i64,
) -> bool {
    match entry {
        None => true,
        Some((count, window_start)) => now - window_start > window_duration_seconds || count
            < max_requests,
    }
}

/// Sliding-window rate limiting, keyed by caller identity: at most
/// `max_requests` requests per window of `window_duration_seconds`.
pub struct RateLimiter {
    pub entries: Vec<RateLimitEntry>,
    pub max_requests: u32,
    pub window_duration_seconds: i64,
}

impl RateLimiter {
    /// At most one entry per caller.
    pub open spec fn wf(&self) -> bool {
        unique_callers(self.entries@)
    }

    /// A limiter with the given budget and window, tracking nobody yet.
    pub fn new(max_requests: u32, window_duration_seconds: i64) -> (r: Self)
        ensures
            r.wf(),
            r.entries@.len() == 0,
            r.max_requests == max_requests,
            r.window_duration_seconds == window_duration_seconds,
    {
        RateLimiter { entries: Vec::new(), max_requests, window_duration_seconds }
    }

    /// The index of a caller's entry, if one exists.
    fn position_of(&self, caller: u128) -> (r: Option<usize>)
        ensures
            (match r {
                Some(i) => i < self.entries@.len() && self.entries@[i as int].caller == caller,
                None => forall|i: int|
                    0 <= i < self.entries@.len() ==> (#[trigger] self.entries@[i]).caller
                        != caller,
            }),
    {
        let n = self.entries.len();
        let mut i: usize = 0;
        while i < n
            invariant
                i <= n,
                n == self.entries@.len(),
                forall|j: int| 0 <= j < i ==> (#[trigger] self.entries@[j]).caller != caller,
            decreases n - i,
        {
            if self.entries[i].caller == caller {
                return Some(i);
            }
            i += 1;
        }
        None
    }

    /// Admits or refuses a request by `identifier` arriving at `now`: an
    /// unknown caller opens a window with one request; a lapsed window is
    /// reset to one request; a live window admits until its budget is spent
    /// and refuses after, leaving the state untouched.
    pub fn is_allowed(&mut self, identifier: u128, now: i64) -> (r: bool)
        requires
            old(self).wf(),
        ensures
            final(self).wf(),
            final(self).max_requests == old(self).max_requests,
            final(self).window_duration_seconds == old(self).window_duration_seconds,
            r == rate_limit_allows(
                find_caller(old(self).entries@, identifier),
                now,
                old(self).max_requests,
                old(self).window_duration_seconds,
            ),
            (forall|v: u128|
                v != identifier ==> find_caller(final(self).entries@, v) == find_caller(
                    old(self).entries@,
                    v,
                )),
            (match find_caller(old(self).entries@, identifier) {
                None => find_caller(final(self).entries@, identifier) == Some((1u32, now))
                    && final(self).entries@.len() == old(self).entries@.len() + 1,
                Some((count, window_start)) => final(self).entries@.len() == old(
                    self,
                ).entries@.len() && (if now - window_start > old(self).window_duration_seconds {
                    find_caller(final(self).entries@, identifier) == Some((1u32, now))
                } else if count < old(self).max_requests {
                    find_caller(final(self).entries@, identifier) == Some(
                        ((count + 1) as u32, window_start),
                    )
                } else {
                    final(self).entries@ == old(self).entries@
                }),
            }),
    {
        match self.position_of(identifier) {
            Some(i) => {
                proof {
                    lemma_find_caller_at(self.entries@, i as int);
                }
                let count = self.entries[i].count;
                let window_start = self.entries[i].window_start;
                let lapsed: bool = (now as i128) - (window_start as i128)
                    > (self.window_duration_seconds as i128);
                if lapsed {
                    let entry = RateLimitEntry { caller: identifier, count: 1, window_start: now };
                    proof {
                        lemma_find_caller_update(self.entries@, i as int, entry);
                    }
                    self.entries[i] = entry;
                    proof {
                        assert forall|a: int, b: int|
                            0 <= a < b < self.entries@.len() implies self.entries@[a].caller
                            != self.entries@[b].caller by {}
                    }
                    true
                } else if count < self.max_requests {
                    let entry = RateLimitEntry {
                        caller: identifier,
                        count: count + 1,
                        window_start,
                    };
                    proof {
                        lemma_find_caller_update(self.entries@, i as int, entry);
                    }
                    self.entries[i] = entry;
                    proof {
                        assert forall|a: int, b: int|
                            0 <= a < b < self.entries@.len() implies self.entries@[a].caller
                            != self.entries@[b].caller by {}
                    }
                    true
                } else {
                    false
                }
            },
            None => {
                proof {
                    lemma_find_caller_none(self.entries@, identifier);
                    let entry = RateLimitEntry { caller: identifier, count: 1, window_start: now };
                    lemma_find_caller_push(self.entries@, entry, identifier);
                    assert forall|v: u128|
                        v != identifier implies find_caller(
                        self.entries@.push(entry),
                        v,
                    ) == find_caller(self.entries@, v) by {
                        lemma_find_caller_push(self.entries@, entry, v);
                    }
                }
                let ghost pre = self.entries@;
                self.entries.push(
                    RateLimitEntry { caller: identifier, count: 1, window_start: now },
                );
                proof {
                    assert forall|a: int, b: int|
                        0 <= a < b < self.entries@.len() implies self.entries@[a].caller
                        != self.entries@[b].caller by {
                        if b == pre.len() {
                            assert(self.entries@[a] == pre[a]);
                        }
                    }
                }
                true
            },
        }
    }
}

} // verus!
