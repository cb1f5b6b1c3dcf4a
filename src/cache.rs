use vstd::prelude::*;
use std::collections::HashMap;

verus! {

broadcast use vstd::std_specs::hash::group_hash_axioms;

/// The uid of the privileged principal.
pub const ROOT_UID: u32 = 0;

/// Owner read and write, nothing for anyone else (octal 600).
pub const PRIVATE_MODE: u32 = 384;

/// Group-writable and other-writable bits (octal 022).
pub const FOREIGN_WRITE_BITS: u32 = 18;

/// What is known of one stored session: who owns its storage, the storage's
/// permission bits, and when the invoker last authenticated (seconds).
#[derive(Clone, Copy, Debug, PartialEq, Eq, Structural)]
pub struct SessionRecord {
    pub owner_uid: u32,
    pub mode: u32,
    pub granted_at: u64,
}

/// Sessions are kept per invoking uid and per controlling terminal.
pub open spec fn key_of(uid: u32, tty: u32) -> u64 {
    (uid as int * 0x1_0000_0000 + tty as int) as u64
}

/// Storage owned by the privileged principal and writable by no one else.
pub open spec fn storage_trusted(owner_uid: u32, mode: u32) -> bool {
    owner_uid == ROOT_UID && mode & FOREIGN_WRITE_BITS == 0
}

pub fn is_storage_trusted(owner_uid: u32, mode: u32) -> (r: bool)
    ensures
        r == storage_trusted(owner_uid, mode),
{
    owner_uid == ROOT_UID && mode & FOREIGN_WRITE_BITS == 0
}

/// A record whose storage only the privileged principal can have written.
pub open spec fn record_trusted(r: SessionRecord) -> bool {
    storage_trusted(r.owner_uid, r.mode)
}

/// Granted no later than `now` and less than `timeout` seconds ago.
pub open spec fn record_fresh(r: SessionRecord, timeout: u64, now: u64) -> bool {
    r.granted_at <= now && now - r.granted_at < timeout
}

pub open spec fn session_valid(m: Map<u64, SessionRecord>, key: u64, timeout: u64, now: u64) -> bool {
    m.contains_key(key) && record_trusted(m[key]) && record_fresh(m[key], timeout, now)
}

/// The record written after a successful authentication at time `now`.
pub open spec fn fresh_record(now: u64) -> SessionRecord {
    SessionRecord { owner_uid: ROOT_UID, mode: PRIVATE_MODE, granted_at: now }
}

pub fn session_key(uid: u32, tty: u32) -> (k: u64)
    ensures
        k == key_of(uid, tty),
        k as int == uid as int * 0x1_0000_0000 + tty as int,
{
    assert(uid as int * 0x1_0000_0000 <= 0xffff_ffff * 0x1_0000_0000) by (nonlinear_arith)
        requires uid <= 0xffff_ffff;
    (uid as u64) * 0x1_0000_0000 + (tty as u64)
}

impl SessionRecord {
    pub fn is_trusted(&self) -> (r: bool)
        ensures
            r == record_trusted(*self),
    {
        is_storage_trusted(self.owner_uid, self.mode)
    }

    pub fn is_fresh(&self, timeout: u64, now: u64) -> (r: bool)
        ensures
            r == record_fresh(*self, timeout, now),
    {
        self.granted_at <= now && now - self.granted_at < timeout
    }
}

/// The time-boxed memory of successful authentications, keyed by session.
pub struct CredentialCache {
    records: HashMap<u64, SessionRecord>,
}

impl View for CredentialCache {
    type V = Map<u64, SessionRecord>;

    closed spec fn view(&self) -> Map<u64, SessionRecord> {
        self.records@
    }
}

impl CredentialCache {
    pub fn new() -> (c: CredentialCache)
        ensures
            c@ == Map::<u64, SessionRecord>::empty(),
    {
        CredentialCache { records: HashMap::new() }
    }

    /// Puts back a record read from storage, as it was found.
    pub fn restore(&mut self, uid: u32, tty: u32, record: SessionRecord)
        ensures
            final(self)@ == old(self)@.insert(key_of(uid, tty), record),
    {
        let k = session_key(uid, tty);
        self.records.insert(k, record);
    }

    /// The stored record of a session, if any.
    pub fn record(&self, uid: u32, tty: u32) -> (r: Option<SessionRecord>)
        ensures
            r == (if self@.contains_key(key_of(uid, tty)) {
                Some(self@[key_of(uid, tty)])
            } else {
                None::<SessionRecord>
            }),
    {
        let k = session_key(uid, tty);
        match self.records.get(&k) {
            Some(r) => Some(*r),
            None => None,
        }
    }

    /// True iff the session has a record, its storage is trusted, and the
    /// last authentication lies within the last `timeout` seconds. A record
    /// from the future counts as tampered.
    pub fn is_valid(&self, uid: u32, tty: u32, timeout: u64, now: u64) -> (r: bool)
        ensures
            r == session_valid(self@, key_of(uid, tty), timeout, now),
    {
        match self.record(uid, tty) {
            Some(rec) => rec.is_trusted() && rec.is_fresh(timeout, now),
            None => false,
        }
    }

    /// Writes (or overwrites) the session's record with time `now`,
    /// owned by the privileged principal with private permissions.
    pub fn record_success(&mut self, uid: u32, tty: u32, now: u64)
        ensures
            final(self)@ == old(self)@.insert(key_of(uid, tty), fresh_record(now)),
    {
        let k = session_key(uid, tty);
        self.records.insert(k, SessionRecord { owner_uid: ROOT_UID, mode: PRIVATE_MODE, granted_at: now });
    }

    /// Removes the session's record; nothing happens when there is none.
    pub fn invalidate(&mut self, uid: u32, tty: u32)
        ensures
            final(self)@ == old(self)@.remove(key_of(uid, tty)),
    {
        let k = session_key(uid, tty);
        self.records.remove(&k);
    }
}

/// After a successful authentication at `now`, the session is valid for any
/// positive timeout until `timeout` seconds have passed, and invalid from then on.
pub proof fn lemma_record_then_valid(m: Map<u64, SessionRecord>, key: u64, timeout: u64, now: u64, later: u64)
    requires
        timeout > 0,
        now <= later,
    ensures
        session_valid(m.insert(key, fresh_record(now)), key, timeout, now),
        session_valid(m.insert(key, fresh_record(now)), key, timeout, later)
            <==> later - now < timeout,
{
    assert(PRIVATE_MODE & FOREIGN_WRITE_BITS == 0) by (bit_vector);
}

/// Invalidating twice is invalidating once, on a session with or without a
/// record, and afterwards the session is not valid for any timeout.
pub proof fn lemma_invalidate_idempotent(m: Map<u64, SessionRecord>, key: u64, timeout: u64, now: u64)
    ensures
        m.remove(key).remove(key) == m.remove(key),
        !session_valid(m.remove(key), key, timeout, now),
{
    assert(m.remove(key).remove(key) =~= m.remove(key));
}

/// A record whose storage is not owned by the privileged principal, or is
/// writable by group or others, never makes a session valid, however fresh.
pub proof fn lemma_tampered_invalid(m: Map<u64, SessionRecord>, key: u64, r: SessionRecord, timeout: u64, now: u64)
    requires
        r.owner_uid != ROOT_UID || r.mode & FOREIGN_WRITE_BITS != 0,
    ensures
        !session_valid(m.insert(key, r), key, timeout, now),
{
}

} // verus!
