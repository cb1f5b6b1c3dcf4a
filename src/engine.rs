use vstd::prelude::*;
use crate::cache::{CredentialCache, fresh_record, key_of};
use crate::policy::{AuthorizationDecision, Invoker, Policy, decide, rule_matches};

verus! {

/// Password attempts allowed per invocation.
pub const MAX_ATTEMPTS: u32 = 3;

/// Why an invocation ends without running anything.
#[derive(Clone, Copy, Debug, PartialEq, Eq, Structural)]
pub enum EngineError {
    /// The real identity is already the privileged one.
    RootInvoker,
    /// No rule grants the requested target.
    NotPermitted,
    /// Every password attempt failed.
    AuthFailed,
}

/// What to do once the policy has decided.
#[derive(Clone, Copy, Debug, PartialEq, Eq, Structural)]
pub enum Gate {
    Deny,
    Prompt,
    Proceed,
}

/// The result of one password attempt.
#[derive(Clone, Copy, Debug, PartialEq, Eq, Structural)]
pub enum AttemptOutcome {
    Granted,
    Retry,
    Locked,
}

/// Refuses a privileged invoker before anything else is looked at.
pub fn check_invoker(uid: u32) -> (r: Result<(), EngineError>)
    ensures
        r == (if uid == 0 { Err(EngineError::RootInvoker) } else { Ok::<(), EngineError>(()) }),
{
    if uid == 0 {
        Err(EngineError::RootInvoker)
    } else {
        Ok(())
    }
}

pub open spec fn authorize_of(policy: Policy, inv: Invoker, target: Seq<u8>) -> Result<
    AuthorizationDecision,
    EngineError,
> {
    if inv.uid == 0 {
        Err(EngineError::RootInvoker)
    } else if !decide(policy.rules@, inv, target).allowed {
        Err(EngineError::NotPermitted)
    } else {
        Ok(decide(policy.rules@, inv, target))
    }
}

/// The invoker check, then the policy's decision for `target`.
pub fn authorize(policy: &Policy, inv: &Invoker, target: &Vec<u8>) -> (r: Result<
    AuthorizationDecision,
    EngineError,
>)
    ensures
        r == authorize_of(*policy, *inv, target@),
{
    match check_invoker(inv.uid) {
        Err(e) => Err(e),
        Ok(()) => {
            let d = policy.evaluate(inv, target);
            if !d.allowed {
                Err(EngineError::NotPermitted)
            } else {
                Ok(d)
            }
        },
    }
}

pub open spec fn gate_of(d: AuthorizationDecision, cache_valid: bool) -> Gate {
    if !d.allowed {
        Gate::Deny
    } else if d.requires_password && !cache_valid {
        Gate::Prompt
    } else {
        Gate::Proceed
    }
}

/// A denial stands whatever the cache says; a valid cache spares the prompt.
pub fn gate(d: AuthorizationDecision, cache_valid: bool) -> (g: Gate)
    ensures
        g == gate_of(d, cache_valid),
{
    if !d.allowed {
        Gate::Deny
    } else if d.requires_password && !cache_valid {
        Gate::Prompt
    } else {
        Gate::Proceed
    }
}

pub open spec fn after_attempt_of(failures: u32, ok: bool) -> AttemptOutcome {
    if ok {
        AttemptOutcome::Granted
    } else if failures + 1 < MAX_ATTEMPTS {
        AttemptOutcome::Retry
    } else {
        AttemptOutcome::Locked
    }
}

/// Decides after an attempt, given how many attempts had already failed.
pub fn after_attempt(failures: u32, ok: bool) -> (r: AttemptOutcome)
    requires
        failures < MAX_ATTEMPTS,
    ensures
        r == after_attempt_of(failures, ok),
{
    if ok {
        AttemptOutcome::Granted
    } else if failures + 1 < MAX_ATTEMPTS {
        AttemptOutcome::Retry
    } else {
        AttemptOutcome::Locked
    }
}

/// Concludes one password attempt of the invoker's session: a correct
/// password is remembered in the cache at time `now`; a wrong one changes
/// nothing there.
pub fn conclude_attempt(
    cache: &mut CredentialCache,
    uid: u32,
    tty: u32,
    now: u64,
    failures: u32,
    ok: bool,
) -> (r: AttemptOutcome)
    requires
        failures < MAX_ATTEMPTS,
    ensures
        r == after_attempt_of(failures, ok),
        ok ==> final(cache)@ == old(cache)@.insert(key_of(uid, tty), fresh_record(now)),
        !ok ==> final(cache)@ == old(cache)@,
{
    if ok {
        cache.record_success(uid, tty, now);
    }
    after_attempt(failures, ok)
}

/// When no rule matches the invoker, the answer is `Deny` for either cache
/// state, and authorization fails.
pub proof fn lemma_unmatched_denied_at_gate(
    policy: Policy,
    inv: Invoker,
    target: Seq<u8>,
    cache_valid: bool,
)
    requires
        forall|j: int|
            0 <= j < policy.rules@.len() ==> !rule_matches(#[trigger] policy.rules@[j], inv, target),
    ensures
        gate_of(decide(policy.rules@, inv, target), cache_valid) == Gate::Deny,
        authorize_of(policy, inv, target) is Err,
{
    crate::policy::lemma_unmatched_denied(policy.rules@, inv, target);
}

/// A privileged invoker is refused whatever the policy holds.
pub proof fn lemma_root_refused(policy: Policy, inv: Invoker, target: Seq<u8>)
    requires
        inv.uid == 0,
    ensures
        authorize_of(policy, inv, target) == Err::<AuthorizationDecision, EngineError>(
            EngineError::RootInvoker,
        ),
{
}

} // verus!
