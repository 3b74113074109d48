//! The idempotency store: a single-key state machine with TTL.
//!
//! Each idempotency key is `NotFound` until marked, then `Processing`,
//! `Sent` or `Failed`; every mark carries a time-to-live, and an entry
//! past its expiry reads as `NotFound` again. The worker backs this store
//! by a shared cache; this module holds the protocol itself, against an
//! explicit clock passed in by the caller.

use vstd::prelude::*;

use crate::status::IdempotencyStatus;

verus! {

/// A marked entry: the status written and the moment it expires.
#[derive(Clone, Copy, PartialEq, Eq, Structural, Debug)]
pub struct IdempotencyEntry {
    pub status: IdempotencyStatus,
    pub expires_at: u64,
}

/// The first entry under `key`, with its expiry, disregarding the clock.
pub open spec fn entries_get(
    s: Seq<(String, IdempotencyEntry)>,
    key: Seq<char>,
) -> Option<IdempotencyEntry>
    decreases s.len(),
{
    if s.len() == 0 {
        Option::None
    } else if s[0].0@ == key {
        Option::Some(s[0].1)
    } else {
        entries_get(s.skip(1), key)
    }
}

/// A key-addressed set of marks with a common time-to-live.
pub struct IdempotencyStore {
    entries: Vec<(String, IdempotencyEntry)>,
    ttl_seconds: u64,
}

/// What a read of `key` at time `now` returns: the marked status while
/// the entry lives, and `NotFound` before any mark and after expiry.
pub open spec fn spec_check(
    s: Seq<(String, IdempotencyEntry)>,
    key: Seq<char>,
    now: u64,
) -> IdempotencyStatus {
    match entries_get(s, key) {
        Option::None => IdempotencyStatus::NotFound,
        Option::Some(e) => if now > e.expires_at {
            IdempotencyStatus::NotFound
        } else {
            e.status
        },
    }
}

/// When a mark written at `now` expires: `ttl` seconds later, saturating
/// at the largest `u64`.
pub open spec fn spec_expiry(now: u64, ttl: u64) -> u64 {
    if now + ttl > u64::MAX {
        u64::MAX
    } else {
        (now + ttl) as u64
    }
}

/// If position `j` holds the first entry under its key, `entries_get`
/// returns it.
proof fn lemma_entries_get_at(s: Seq<(String, IdempotencyEntry)>, key: Seq<char>, j: int)
    requires
        0 <= j < s.len(),
        s[j].0@ == key,
        forall|m: int| 0 <= m < j ==> s[m].0@ != key,
    ensures
        entries_get(s, key) == Option::Some(s[j].1),
    decreases s.len(),
{
    if j == 0 {
    } else {
        assert(s.skip(1)[j - 1] == s[j]);
        assert(forall|m: int| 0 <= m < j - 1 ==> s.skip(1)[m] == s[m + 1]);
        lemma_entries_get_at(s.skip(1), key, j - 1);
    }
}

/// Two lists that differ only at position `j`, where both hold the same
/// key, read alike under every other key.
proof fn lemma_entries_get_update(
    s: Seq<(String, IdempotencyEntry)>,
    s2: Seq<(String, IdempotencyEntry)>,
    j: int,
    key: Seq<char>,
)
    requires
        0 <= j < s.len(),
        s2.len() == s.len(),
        forall|m: int| 0 <= m < s.len() && m != j ==> s2[m] == s[m],
        s[j].0@ == key,
        s2[j].0@ == key,
    ensures
        forall|k: Seq<char>| k != key ==> entries_get(s2, k) == entries_get(s, k),
    decreases s.len(),
{
    if j == 0 {
        assert(s2.skip(1) =~= s.skip(1));
        assert forall|k: Seq<char>| k != key implies entries_get(s2, k) == entries_get(s, k) by {
            assert(entries_get(s, k) == entries_get(s.skip(1), k));
            assert(entries_get(s2, k) == entries_get(s2.skip(1), k));
        }
    } else {
        assert(s2[0] == s[0]);
        assert(s.skip(1)[j - 1] == s[j]);
        assert(s2.skip(1)[j - 1] == s2[j]);
        assert(forall|m: int| 0 <= m < s.len() - 1 && m != j - 1 ==> s2.skip(1)[m] == s.skip(
            1,
        )[m]);
        lemma_entries_get_update(s.skip(1), s2.skip(1), j - 1, key);
        assert forall|k: Seq<char>| k != key implies entries_get(s2, k) == entries_get(s, k) by {
            if s[0].0@ == k {
            } else {
                assert(entries_get(s, k) == entries_get(s.skip(1), k));
                assert(entries_get(s2, k) == entries_get(s2.skip(1), k));
            }
        }
    }
}

/// Appending an entry leaves every other key's reading unchanged, and
/// gives the appended key its first entry only if it had none.
proof fn lemma_entries_get_push(
    s: Seq<(String, IdempotencyEntry)>,
    x: (String, IdempotencyEntry),
)
    requires
        entries_get(s, x.0@).is_none(),
    ensures
        entries_get(s.push(x), x.0@) == Option::Some(x.1),
        forall|k: Seq<char>| k != x.0@ ==> entries_get(s.push(x), k) == entries_get(s, k),
    decreases s.len(),
{
    if s.len() == 0 {
        assert(s.push(x)[0] == x);
        assert forall|k: Seq<char>| k != x.0@ implies entries_get(s.push(x), k) == entries_get(
            s,
            k,
        ) by {
            assert(entries_get(s.push(x), k) == entries_get(s.push(x).skip(1), k));
            assert(s.push(x).skip(1) =~= Seq::<(String, IdempotencyEntry)>::empty());
        }
    } else {
        assert(s.push(x)[0] == s[0]);
        assert(s.push(x).skip(1) =~= s.skip(1).push(x));
        assert(entries_get(s, x.0@) == entries_get(s.skip(1), x.0@));
        lemma_entries_get_push(s.skip(1), x);
        assert forall|k: Seq<char>| k != x.0@ implies entries_get(s.push(x), k) == entries_get(
            s,
            k,
        ) by {
            if s[0].0@ == k {
            } else {
                assert(entries_get(s.push(x), k) == entries_get(s.push(x).skip(1), k));
                assert(entries_get(s, k) == entries_get(s.skip(1), k));
            }
        }
    }
}

impl IdempotencyStore {
    /// The entries as they stand, first match winning.
    pub closed spec fn view_entries(self) -> Seq<(String, IdempotencyEntry)> {
        self.entries@
    }

    /// The store's time-to-live.
    pub closed spec fn spec_ttl(self) -> u64 {
        self.ttl_seconds
    }

    /// An empty store with the given time-to-live.
    pub fn new(ttl_seconds: u64) -> (r: IdempotencyStore)
        ensures
            r.view_entries() == Seq::<(String, IdempotencyEntry)>::empty(),
            r.spec_ttl() == ttl_seconds,
    {
        let r = IdempotencyStore { entries: Vec::new(), ttl_seconds };
        proof {
            assert(r.view_entries() =~= Seq::<(String, IdempotencyEntry)>::empty());
        }
        r
    }

    /// Reads a key at time `now`.
    pub fn check(&self, key: &str, now: u64) -> (r: IdempotencyStatus)
        ensures
            r == spec_check(self.view_entries(), key@, now),
    {
        let mut i: usize = 0;
        proof {
            assert(self.entries@.skip(0) =~= self.entries@);
        }
        while i < self.entries.len()
            invariant
                i <= self.entries@.len(),
                entries_get(self.entries@, key@) == entries_get(
                    self.entries@.skip(i as int),
                    key@,
                ),
            decreases self.entries@.len() - i,
        {
            let ghost tail = self.entries@.skip(i as int);
            proof {
                assert(tail[0] == self.entries@[i as int]);
                assert(tail.skip(1) =~= self.entries@.skip(i + 1));
            }
            if crate::text::str_eq(self.entries[i].0.as_str(), key) {
                let e = &self.entries[i].1;
                if now > e.expires_at {
                    return IdempotencyStatus::NotFound;
                }
                return e.status;
            }
            i += 1;
        }
        proof {
            assert(self.entries@.skip(i as int) =~= Seq::<(String, IdempotencyEntry)>::empty());
        }
        IdempotencyStatus::NotFound
    }

    /// Writes `status` under `key` at time `now`, with the store's
    /// time-to-live: the key then reads as `status` until the mark
    /// expires, and every other key reads as before.
    pub fn mark(&mut self, key: &str, status: IdempotencyStatus, now: u64)
        ensures
            final(self).spec_ttl() == old(self).spec_ttl(),
            entries_get(final(self).view_entries(), key@) == Option::Some(
                IdempotencyEntry {
                    status,
                    expires_at: spec_expiry(now, old(self).spec_ttl()),
                },
            ),
            forall|k: Seq<char>| k != key@ ==> entries_get(final(self).view_entries(), k)
                == entries_get(old(self).view_entries(), k),
    {
        let mut i: usize = 0;
        while i < self.entries.len()
            invariant
                i <= self.entries@.len(),
                *self == *old(self),
                forall|m: int| 0 <= m < i ==> self.entries@[m].0@ != key@,
            decreases self.entries@.len() - i,
        {
            if crate::text::str_eq(self.entries[i].0.as_str(), key) {
                let expires_at: u64 = if now > u64::MAX - self.ttl_seconds {
                    u64::MAX
                } else {
                    now + self.ttl_seconds
                };
                let entry = IdempotencyEntry { status, expires_at };
                let ghost before = self.entries@;
                let name = String::from_str(key);
                let ghost val = (name, entry);
                self.entries[i] = (name, entry);
                proof {
                    assert(self.entries@ =~= before.update(i as int, val));
                    assert(self.entries@[i as int].0@ == key@);
                    assert(self.entries@[i as int].1 == IdempotencyEntry { status, expires_at });
                    lemma_entries_get_at(self.entries@, key@, i as int);
                    lemma_entries_get_update(before, self.entries@, i as int, key@);
                }
                return ;
            }
            i += 1;
        }
        let expires_at: u64 = if now > u64::MAX - self.ttl_seconds {
            u64::MAX
        } else {
            now + self.ttl_seconds
        };
        let entry = IdempotencyEntry { status, expires_at };
        let ghost before = self.entries@;
        let name = String::from_str(key);
        self.entries.push((name, entry));
        proof {
            lemma_entries_get_none(before, key@);
            lemma_entries_get_push(before, (name, entry));
        }
    }

    /// Marks a key as being processed.
    pub fn mark_processing(&mut self, key: &str, now: u64)
        ensures
            final(self).spec_ttl() == old(self).spec_ttl(),
            entries_get(final(self).view_entries(), key@) == Option::Some(
                IdempotencyEntry {
                    status: IdempotencyStatus::Processing,
                    expires_at: spec_expiry(now, old(self).spec_ttl()),
                },
            ),
            forall|k: Seq<char>| k != key@ ==> entries_get(final(self).view_entries(), k)
                == entries_get(old(self).view_entries(), k),
    {
        self.mark(key, IdempotencyStatus::Processing, now)
    }

    /// Marks a key as delivered.
    pub fn mark_sent(&mut self, key: &str, now: u64)
        ensures
            final(self).spec_ttl() == old(self).spec_ttl(),
            entries_get(final(self).view_entries(), key@) == Option::Some(
                IdempotencyEntry {
                    status: IdempotencyStatus::Sent,
                    expires_at: spec_expiry(now, old(self).spec_ttl()),
                },
            ),
            forall|k: Seq<char>| k != key@ ==> entries_get(final(self).view_entries(), k)
                == entries_get(old(self).view_entries(), k),
    {
        self.mark(key, IdempotencyStatus::Sent, now)
    }

    /// Marks a key as failed.
    pub fn mark_failed(&mut self, key: &str, now: u64)
        ensures
            final(self).spec_ttl() == old(self).spec_ttl(),
            entries_get(final(self).view_entries(), key@) == Option::Some(
                IdempotencyEntry {
                    status: IdempotencyStatus::Failed,
                    expires_at: spec_expiry(now, old(self).spec_ttl()),
                },
            ),
            forall|k: Seq<char>| k != key@ ==> entries_get(final(self).view_entries(), k)
                == entries_get(old(self).view_entries(), k),
    {
        self.mark(key, IdempotencyStatus::Failed, now)
    }
}

/// A list whose scanned prefix lacks a key reads `None` when the scan
/// covered it all.
proof fn lemma_entries_get_none(s: Seq<(String, IdempotencyEntry)>, key: Seq<char>)
    requires
        forall|m: int| 0 <= m < s.len() ==> s[m].0@ != key,
    ensures
        entries_get(s, key).is_none(),
    decreases s.len(),
{
    if s.len() == 0 {
    } else {
        assert(forall|m: int| 0 <= m < s.len() - 1 ==> s.skip(1)[m] == s[m + 1]);
        lemma_entries_get_none(s.skip(1), key);
    }
}

/// Marking a key `Sent` at time `t` and waiting longer than the
/// time-to-live makes the key read `NotFound` again.
pub proof fn lemma_ttl_expiry(
    before: IdempotencyStore,
    after: IdempotencyStore,
    key: Seq<char>,
    t: u64,
    later: u64,
)
    requires
        after.spec_ttl() == before.spec_ttl(),
        entries_get(after.view_entries(), key) == Option::Some(
            IdempotencyEntry {
                status: IdempotencyStatus::Sent,
                expires_at: spec_expiry(t, before.spec_ttl()),
            },
        ),
        t + before.spec_ttl() <= u64::MAX,
        later > t + before.spec_ttl(),
        later <= u64::MAX,
    ensures
        spec_check(after.view_entries(), key, later) == IdempotencyStatus::NotFound,
{
}

/// Within the time-to-live window, a key marked `Sent` keeps reading
/// `Sent`.
pub proof fn lemma_sent_within_ttl(
    before: IdempotencyStore,
    after: IdempotencyStore,
    key: Seq<char>,
    t: u64,
    later: u64,
)
    requires
        after.spec_ttl() == before.spec_ttl(),
        entries_get(after.view_entries(), key) == Option::Some(
            IdempotencyEntry {
                status: IdempotencyStatus::Sent,
                expires_at: spec_expiry(t, before.spec_ttl()),
            },
        ),
        later <= spec_expiry(t, before.spec_ttl()),
    ensures
        spec_check(after.view_entries(), key, later) == IdempotencyStatus::Sent,
{
}

/// The cache key an idempotency key is stored under.
pub fn cache_key(key: &str) -> (r: String)
    ensures
        r@ == "idempotency:"@ + key@,
{
    String::from_str("idempotency:").concat(key)
}

} // verus!
