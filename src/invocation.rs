use vstd::prelude::*;
use crate::engine::AttemptOutcome;
use crate::policy::AuthorizationDecision;

verus! {

/// Where one invocation stands. `Denied` and `Failed` are terminal, and so is
/// `Executing` as far as this machine is concerned.
#[derive(Clone, Copy, Debug, PartialEq, Eq, Structural)]
pub enum Phase {
    Start,
    InvokerChecked,
    PolicyLoaded,
    Authorized { password_required: bool },
    CacheValid,
    Authenticated,
    PrivilegeDropped,
    Executing,
    Denied,
    Failed,
}

/// What the surrounding program reports after doing the work of a phase.
#[derive(Clone, Copy, Debug, PartialEq, Eq, Structural)]
pub enum Event {
    /// The real uid was read.
    Invoked { uid: u32 },
    /// The policy file was loaded, or refused.
    PolicyRead { ok: bool },
    /// The policy was evaluated for the requested target.
    Decided { decision: AuthorizationDecision },
    /// The cached session was consulted.
    CacheChecked { valid: bool },
    /// A password attempt was concluded.
    Attempted { outcome: AttemptOutcome },
    /// The identity transition ended, committed or not.
    Switched { committed: bool },
    /// The process image is about to be replaced.
    Launching,
}

pub open spec fn step_of(p: Phase, e: Event) -> Phase {
    match (p, e) {
        (Phase::Start, Event::Invoked { uid }) => if uid == 0 {
            Phase::Denied
        } else {
            Phase::InvokerChecked
        },
        (Phase::InvokerChecked, Event::PolicyRead { ok }) => if ok {
            Phase::PolicyLoaded
        } else {
            Phase::Failed
        },
        (Phase::PolicyLoaded, Event::Decided { decision }) => if decision.allowed {
            Phase::Authorized { password_required: decision.requires_password }
        } else {
            Phase::Denied
        },
        (Phase::Authorized { password_required }, Event::CacheChecked { valid }) => if !password_required || valid {
            Phase::CacheValid
        } else {
            Phase::Authorized { password_required }
        },
        (Phase::Authorized { password_required }, Event::Attempted { outcome }) => if !password_required {
            Phase::Failed
        } else {
            match outcome {
                AttemptOutcome::Granted => Phase::Authenticated,
                AttemptOutcome::Retry => Phase::Authorized { password_required },
                AttemptOutcome::Locked => Phase::Failed,
            }
        },
        (Phase::CacheValid, Event::Switched { committed }) => if committed {
            Phase::PrivilegeDropped
        } else {
            Phase::Failed
        },
        (Phase::Authenticated, Event::Switched { committed }) => if committed {
            Phase::PrivilegeDropped
        } else {
            Phase::Failed
        },
        (Phase::PrivilegeDropped, Event::Launching) => Phase::Executing,
        (Phase::Denied, _) => Phase::Denied,
        (Phase::Executing, _) => Phase::Executing,
        _ => Phase::Failed,
    }
}

/// The next phase; an event out of turn fails the invocation.
pub fn step(p: Phase, e: Event) -> (r: Phase)
    ensures
        r == step_of(p, e),
{
    match (p, e) {
        (Phase::Start, Event::Invoked { uid }) => if uid == 0 {
            Phase::Denied
        } else {
            Phase::InvokerChecked
        },
        (Phase::InvokerChecked, Event::PolicyRead { ok }) => if ok {
            Phase::PolicyLoaded
        } else {
            Phase::Failed
        },
        (Phase::PolicyLoaded, Event::Decided { decision }) => if decision.allowed {
            Phase::Authorized { password_required: decision.requires_password }
        } else {
            Phase::Denied
        },
        (Phase::Authorized { password_required }, Event::CacheChecked { valid }) => if !password_required || valid {
            Phase::CacheValid
        } else {
            Phase::Authorized { password_required }
        },
        (Phase::Authorized { password_required }, Event::Attempted { outcome }) => if !password_required {
            Phase::Failed
        } else {
            match outcome {
                AttemptOutcome::Granted => Phase::Authenticated,
                AttemptOutcome::Retry => Phase::Authorized { password_required },
                AttemptOutcome::Locked => Phase::Failed,
            }
        },
        (Phase::CacheValid, Event::Switched { committed }) => if committed {
            Phase::PrivilegeDropped
        } else {
            Phase::Failed
        },
        (Phase::Authenticated, Event::Switched { committed }) => if committed {
            Phase::PrivilegeDropped
        } else {
            Phase::Failed
        },
        (Phase::PrivilegeDropped, Event::Launching) => Phase::Executing,
        (Phase::Denied, _) => Phase::Denied,
        (Phase::Executing, _) => Phase::Executing,
        _ => Phase::Failed,
    }
}

/// The phase reached from `Start` through `events`.
pub open spec fn run_of(events: Seq<Event>) -> Phase
    decreases events.len(),
{
    if events.len() == 0 {
        Phase::Start
    } else {
        step_of(run_of(events.drop_last()), events.last())
    }
}

/// Each phase is entered only from the one before it: execution only after
/// the privilege drop, the drop only after the cache or a password cleared
/// the way, and those only after an allowing decision; and nothing leaves
/// `Denied` or `Failed`.
pub proof fn lemma_phase_order(p: Phase, e: Event)
    ensures
        step_of(p, e) == Phase::Executing ==> p == Phase::PrivilegeDropped || p == Phase::Executing,
        step_of(p, e) == Phase::PrivilegeDropped ==> p == Phase::CacheValid || p
            == Phase::Authenticated,
        step_of(p, e) == Phase::Authenticated ==> p == (Phase::Authorized { password_required: true }),
        step_of(p, e) == Phase::CacheValid ==> p is Authorized,
        step_of(p, e) is Authorized ==> p is PolicyLoaded || p is Authorized,
        step_of(p, e) == Phase::PolicyLoaded ==> p == Phase::InvokerChecked,
        step_of(p, e) == Phase::InvokerChecked ==> p == Phase::Start && e == (Event::Invoked { uid: e->uid }) && e->uid != 0,
        p == Phase::Denied ==> step_of(p, e) == Phase::Denied,
        p == Phase::Failed ==> step_of(p, e) == Phase::Failed,
{
}

/// Once failed, an invocation stays failed whatever is reported afterwards.
pub proof fn lemma_failed_persists(events: Seq<Event>, k: int)
    requires
        0 <= k <= events.len(),
        run_of(events.subrange(0, k)) == Phase::Failed,
    ensures
        run_of(events) == Phase::Failed,
    decreases events.len(),
{
    if k < events.len() {
        assert(events.drop_last().subrange(0, k) =~= events.subrange(0, k));
        lemma_failed_persists(events.drop_last(), k);
    } else {
        assert(events.subrange(0, k) =~= events);
    }
}

/// When the identity transition reports failure, the invocation fails for
/// good: it never reaches `Executing`, whatever is reported afterwards.
pub proof fn lemma_failed_switch_never_executes(events: Seq<Event>, k: int)
    requires
        0 <= k < events.len(),
        run_of(events.subrange(0, k)) == Phase::CacheValid || run_of(events.subrange(0, k))
            == Phase::Authenticated,
        events[k] == (Event::Switched { committed: false }),
    ensures
        run_of(events) == Phase::Failed,
        run_of(events) != Phase::Executing,
{
    let pre = events.subrange(0, k + 1);
    assert(pre.drop_last() =~= events.subrange(0, k));
    assert(pre.last() == events[k]);
    lemma_failed_persists(events, k + 1);
}

/// Whatever happens afterwards, an invocation by uid 0 never gets past its
/// first step, so no policy is even loaded.
pub proof fn lemma_root_never_proceeds(events: Seq<Event>)
    requires
        events.len() >= 1,
        events[0] == (Event::Invoked { uid: 0 }),
    ensures
        run_of(events) == Phase::Denied,
    decreases events.len(),
{
    if events.len() > 1 {
        let p = events.drop_last();
        assert(p[0] == events[0]);
        lemma_root_never_proceeds(p);
    } else {
        assert(events.drop_last().len() == 0);
        assert(run_of(events.drop_last()) == Phase::Start);
        assert(events.last() == events[0]);
    }
}

} // verus!
