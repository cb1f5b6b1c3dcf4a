use elev::cache::{session_key, CredentialCache, SessionRecord, PRIVATE_MODE, ROOT_UID};
use elev::engine::{after_attempt, conclude_attempt, AttemptOutcome};

#[test]
fn recorded_session_is_valid_until_timeout() {
    let mut c = CredentialCache::new();
    assert!(!c.is_valid(1001, 3, 300, 1000));
    c.record_success(1001, 3, 1000);
    assert!(c.is_valid(1001, 3, 300, 1000));
    assert!(c.is_valid(1001, 3, 300, 1299));
    assert!(!c.is_valid(1001, 3, 300, 1300));
    assert!(!c.is_valid(1001, 3, 0, 1000));
    let r = c.record(1001, 3).unwrap();
    assert_eq!(r, SessionRecord { owner_uid: ROOT_UID, mode: PRIVATE_MODE, granted_at: 1000 });
    assert_eq!(PRIVATE_MODE, 0o600);
}

#[test]
fn sessions_are_per_user_and_terminal() {
    let mut c = CredentialCache::new();
    c.record_success(1001, 3, 1000);
    assert!(!c.is_valid(1001, 4, 300, 1010));
    assert!(!c.is_valid(1002, 3, 300, 1010));
    assert_ne!(session_key(1001, 3), session_key(1001, 4));
    assert_eq!(session_key(1, 2), (1u64 << 32) + 2);
}

#[test]
fn invalidate_is_idempotent() {
    let mut c = CredentialCache::new();
    c.invalidate(1001, 3);
    assert!(c.record(1001, 3).is_none());
    c.record_success(1001, 3, 1000);
    c.invalidate(1001, 3);
    c.invalidate(1001, 3);
    assert!(c.record(1001, 3).is_none());
    assert!(!c.is_valid(1001, 3, u64::MAX, 1000));
}

#[test]
fn tampered_records_are_not_trusted() {
    let mut c = CredentialCache::new();
    c.restore(1001, 3, SessionRecord { owner_uid: 1001, mode: 0o600, granted_at: 1000 });
    assert!(!c.is_valid(1001, 3, 300, 1001));
    c.restore(1001, 3, SessionRecord { owner_uid: 0, mode: 0o620, granted_at: 1000 });
    assert!(!c.is_valid(1001, 3, 300, 1001));
    c.restore(1001, 3, SessionRecord { owner_uid: 0, mode: 0o602, granted_at: 1000 });
    assert!(!c.is_valid(1001, 3, 300, 1001));
    c.restore(1001, 3, SessionRecord { owner_uid: 0, mode: 0o600, granted_at: 5000 });
    assert!(!c.is_valid(1001, 3, 300, 1001));
    c.restore(1001, 3, SessionRecord { owner_uid: 0, mode: 0o644, granted_at: 1000 });
    assert!(c.is_valid(1001, 3, 300, 1001));
}

#[test]
fn password_attempts_are_bounded() {
    assert_eq!(after_attempt(0, true), AttemptOutcome::Granted);
    assert_eq!(after_attempt(0, false), AttemptOutcome::Retry);
    assert_eq!(after_attempt(1, false), AttemptOutcome::Retry);
    assert_eq!(after_attempt(2, false), AttemptOutcome::Locked);
    assert_eq!(after_attempt(2, true), AttemptOutcome::Granted);
}

#[test]
fn only_a_correct_password_is_remembered() {
    let mut c = CredentialCache::new();
    assert_eq!(conclude_attempt(&mut c, 1001, 3, 50, 0, false), AttemptOutcome::Retry);
    assert!(c.record(1001, 3).is_none());
    assert_eq!(conclude_attempt(&mut c, 1001, 3, 60, 1, true), AttemptOutcome::Granted);
    assert_eq!(c.record(1001, 3).unwrap().granted_at, 60);
}
