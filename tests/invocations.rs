use elev::cache::CredentialCache;
use elev::config::parse_policy;
use elev::engine::{authorize, conclude_attempt, gate, AttemptOutcome, EngineError, Gate};
use elev::invocation::{step, Event, Phase};
use elev::policy::{AuthorizationDecision, Invoker};
use elev::privilege::{advance, may_execute, next_step, SwitchState};

fn b(s: &str) -> Vec<u8> {
    s.as_bytes().to_vec()
}

fn commit_all_ok() -> SwitchState {
    let mut s = SwitchState::Start;
    while next_step(s).is_some() {
        s = advance(s, true);
    }
    s
}

#[test]
fn alice_runs_without_password() {
    let policy = parse_policy(&b("permit nopass alice as ALL\n")).unwrap();
    let alice = Invoker { name: b("alice"), uid: 1000, groups: vec![b("alice")] };
    let cache = CredentialCache::new();
    let d = authorize(&policy, &alice, &b("root")).unwrap();
    assert!(!d.requires_password);
    let valid = cache.is_valid(alice.uid, 1, policy.timeout, 100);
    assert!(!valid);
    assert_eq!(gate(d, valid), Gate::Proceed);
    assert!(may_execute(commit_all_ok()));
}

#[test]
fn bob_password_then_cache_then_expiry() {
    let policy = parse_policy(&b("timeout 300\npermit bob as root\n")).unwrap();
    let bob = Invoker { name: b("bob"), uid: 1001, groups: vec![] };
    let mut cache = CredentialCache::new();
    let d = authorize(&policy, &bob, &b("root")).unwrap();
    assert!(d.requires_password);

    // first invocation: no cache, prompt, correct password
    assert_eq!(gate(d, cache.is_valid(bob.uid, 1, policy.timeout, 1000)), Gate::Prompt);
    assert_eq!(conclude_attempt(&mut cache, bob.uid, 1, 1000, 0, true), AttemptOutcome::Granted);
    assert!(cache.record(bob.uid, 1).is_some());

    // second invocation within the window
    assert_eq!(gate(d, cache.is_valid(bob.uid, 1, policy.timeout, 1200)), Gate::Proceed);

    // third invocation after the window
    assert_eq!(gate(d, cache.is_valid(bob.uid, 1, policy.timeout, 1300)), Gate::Prompt);
}

#[test]
fn reset_forces_prompt() {
    let policy = parse_policy(&b("timeout 300\npermit bob as root\n")).unwrap();
    let bob = Invoker { name: b("bob"), uid: 1001, groups: vec![] };
    let mut cache = CredentialCache::new();
    cache.record_success(bob.uid, 1, 1000);
    let d = authorize(&policy, &bob, &b("root")).unwrap();
    assert_eq!(gate(d, cache.is_valid(bob.uid, 1, policy.timeout, 1010)), Gate::Proceed);
    cache.invalidate(bob.uid, 1);
    assert!(cache.record(bob.uid, 1).is_none());
    assert_eq!(gate(d, cache.is_valid(bob.uid, 1, policy.timeout, 1011)), Gate::Prompt);
}

#[test]
fn root_invoker_is_refused() {
    let policy = parse_policy(&b("permit nopass root as ALL\npermit nopass %root as ALL\n")).unwrap();
    let root = Invoker { name: b("root"), uid: 0, groups: vec![b("root")] };
    assert_eq!(authorize(&policy, &root, &b("root")), Err(EngineError::RootInvoker));
}

#[test]
fn wrong_passwords_lock_and_leave_cache_untouched() {
    let mut cache = CredentialCache::new();
    assert_eq!(conclude_attempt(&mut cache, 1001, 1, 10, 0, false), AttemptOutcome::Retry);
    assert_eq!(conclude_attempt(&mut cache, 1001, 1, 11, 1, false), AttemptOutcome::Retry);
    assert_eq!(conclude_attempt(&mut cache, 1001, 1, 12, 2, false), AttemptOutcome::Locked);
    assert!(cache.record(1001, 1).is_none());
}

fn run(events: &[Event]) -> Phase {
    events.iter().fold(Phase::Start, |p, e| step(p, *e))
}

#[test]
fn invocation_without_password_reaches_execution() {
    let d = AuthorizationDecision { allowed: true, requires_password: false };
    let p = run(&[
        Event::Invoked { uid: 1000 },
        Event::PolicyRead { ok: true },
        Event::Decided { decision: d },
        Event::CacheChecked { valid: false },
        Event::Switched { committed: true },
        Event::Launching,
    ]);
    assert_eq!(p, Phase::Executing);
}

#[test]
fn invocation_with_password_retries_then_authenticates() {
    let d = AuthorizationDecision { allowed: true, requires_password: true };
    let before = [
        Event::Invoked { uid: 1001 },
        Event::PolicyRead { ok: true },
        Event::Decided { decision: d },
        Event::CacheChecked { valid: false },
    ];
    assert_eq!(run(&before), Phase::Authorized { password_required: true });
    let mut evs = before.to_vec();
    evs.push(Event::Attempted { outcome: AttemptOutcome::Retry });
    evs.push(Event::Attempted { outcome: AttemptOutcome::Granted });
    assert_eq!(run(&evs), Phase::Authenticated);
    evs.push(Event::Switched { committed: false });
    assert_eq!(run(&evs), Phase::Failed);
    evs.push(Event::Launching);
    assert_eq!(run(&evs), Phase::Failed);
}

#[test]
fn invocation_out_of_order_or_refused_never_executes() {
    let d = AuthorizationDecision { allowed: true, requires_password: true };
    assert_eq!(run(&[Event::Invoked { uid: 0 }, Event::PolicyRead { ok: true }, Event::Decided { decision: d }]), Phase::Denied);
    assert_eq!(run(&[Event::Invoked { uid: 5 }, Event::Launching]), Phase::Failed);
    assert_eq!(run(&[Event::Invoked { uid: 5 }, Event::PolicyRead { ok: false }]), Phase::Failed);
    let no = AuthorizationDecision { allowed: false, requires_password: false };
    assert_eq!(
        run(&[Event::Invoked { uid: 5 }, Event::PolicyRead { ok: true }, Event::Decided { decision: no }, Event::CacheChecked { valid: true }]),
        Phase::Denied
    );
    assert_eq!(
        run(&[
            Event::Invoked { uid: 5 },
            Event::PolicyRead { ok: true },
            Event::Decided { decision: d },
            Event::CacheChecked { valid: true },
            Event::Launching,
        ]),
        Phase::Failed
    );
}
