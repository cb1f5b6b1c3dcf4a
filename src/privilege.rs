use vstd::prelude::*;

verus! {

/// The resolved target identity.
pub struct Identity {
    pub name: Vec<u8>,
    pub uid: u32,
    pub primary_gid: u32,
    pub supplementary_gids: Vec<u32>,
}

/// One system call of the identity transition.
#[derive(Clone, Copy, Debug, PartialEq, Eq, Structural)]
pub enum Step {
    /// Replace the supplementary groups by exactly the target's.
    SetGroups,
    /// Set the primary group id to the target's.
    SetGid,
    /// Set the user id to the target's; after this no group change is possible.
    SetUid,
}

/// How far the transition has come.
#[derive(Clone, Copy, Debug, PartialEq, Eq, Structural)]
pub enum SwitchState {
    Start,
    GroupsSet,
    GidSet,
    Committed,
    Failed,
}

pub open spec fn next_step_of(s: SwitchState) -> Option<Step> {
    match s {
        SwitchState::Start => Some(Step::SetGroups),
        SwitchState::GroupsSet => Some(Step::SetGid),
        SwitchState::GidSet => Some(Step::SetUid),
        _ => None,
    }
}

pub open spec fn advance_of(s: SwitchState, succeeded: bool) -> SwitchState {
    if !succeeded {
        SwitchState::Failed
    } else {
        match s {
            SwitchState::Start => SwitchState::GroupsSet,
            SwitchState::GroupsSet => SwitchState::GidSet,
            _ => SwitchState::Committed,
        }
    }
}

/// The state reached from `Start` when the steps asked for report `outcomes`
/// in turn; outcomes after the transition has ended are not consulted.
pub open spec fn run_of(outcomes: Seq<bool>) -> SwitchState
    decreases outcomes.len(),
{
    if outcomes.len() == 0 {
        SwitchState::Start
    } else {
        let s = run_of(outcomes.drop_last());
        if next_step_of(s) is Some {
            advance_of(s, outcomes.last())
        } else {
            s
        }
    }
}

/// The step to perform next, or `None` once the transition has ended.
pub fn next_step(s: SwitchState) -> (r: Option<Step>)
    ensures
        r == next_step_of(s),
{
    match s {
        SwitchState::Start => Some(Step::SetGroups),
        SwitchState::GroupsSet => Some(Step::SetGid),
        SwitchState::GidSet => Some(Step::SetUid),
        _ => None,
    }
}

/// The state after the pending step reported `succeeded`. Any failure is
/// final: there is no way forward from `Failed`.
pub fn advance(s: SwitchState, succeeded: bool) -> (r: SwitchState)
    requires
        next_step_of(s) is Some,
    ensures
        r == advance_of(s, succeeded),
{
    if !succeeded {
        SwitchState::Failed
    } else {
        match s {
            SwitchState::Start => SwitchState::GroupsSet,
            SwitchState::GroupsSet => SwitchState::GidSet,
            _ => SwitchState::Committed,
        }
    }
}

/// A command may be launched only after the whole transition succeeded.
pub fn may_execute(s: SwitchState) -> (r: bool)
    ensures
        r == (s == SwitchState::Committed),
{
    match s {
        SwitchState::Committed => true,
        _ => false,
    }
}

/// Steps are asked for in the fixed order groups, group id, user id.
pub proof fn lemma_step_order(outcomes: Seq<bool>)
    requires
        forall|i: int| 0 <= i < outcomes.len() ==> #[trigger] outcomes[i],
    ensures
        outcomes.len() == 0 ==> next_step_of(run_of(outcomes)) == Some(Step::SetGroups),
        outcomes.len() == 1 ==> next_step_of(run_of(outcomes)) == Some(Step::SetGid),
        outcomes.len() == 2 ==> next_step_of(run_of(outcomes)) == Some(Step::SetUid),
        outcomes.len() >= 3 ==> run_of(outcomes) == SwitchState::Committed,
    decreases outcomes.len(),
{
    if outcomes.len() > 0 {
        let p = outcomes.drop_last();
        assert forall|i: int| 0 <= i < p.len() implies #[trigger] p[i] by {
            assert(p[i] == outcomes[i]);
        }
        lemma_step_order(p);
        assert(outcomes.last() == outcomes[outcomes.len() - 1]);
    }
}

/// The transition is committed exactly when the first three steps all
/// succeeded; a failure at any of them, the user-id step included, leaves it
/// failed for good, so no command is ever launched after a partial change.
pub proof fn lemma_committed_iff_all_steps(outcomes: Seq<bool>)
    ensures
        (run_of(outcomes) == SwitchState::Committed) <==> (outcomes.len() >= 3 && outcomes[0]
            && outcomes[1] && outcomes[2]),
        (outcomes.len() >= 3 && outcomes[0] && outcomes[1] && !outcomes[2]) ==> run_of(outcomes)
            == SwitchState::Failed,
        (run_of(outcomes) == SwitchState::Failed) <==> (exists|i: int|
            0 <= i < 3 && i < outcomes.len() && !#[trigger] outcomes[i]),
    decreases outcomes.len(),
{
    if outcomes.len() > 0 {
        let p = outcomes.drop_last();
        lemma_committed_iff_all_steps(p);
        let n = outcomes.len() - 1;
        assert(outcomes.last() == outcomes[n]);
        assert forall|i: int| 0 <= i < n implies p[i] == outcomes[i] by {}
        if n >= 3 {
            assert(p[0] == outcomes[0] && p[1] == outcomes[1] && p[2] == outcomes[2]);
        } else {
            if n >= 1 { assert(p[0] == outcomes[0]); }
            if n >= 2 { assert(p[1] == outcomes[1]); }
            lemma_prefix_states(p);
        }
        if exists|i: int| 0 <= i < 3 && i < p.len() && !#[trigger] p[i] {
            let i = choose|i: int| 0 <= i < 3 && i < p.len() && !#[trigger] p[i];
            assert(outcomes[i] == p[i]);
        }
        if exists|i: int| 0 <= i < 3 && i < outcomes.len() && !#[trigger] outcomes[i] {
            let i = choose|i: int| 0 <= i < 3 && i < outcomes.len() && !#[trigger] outcomes[i];
            if i < n {
                assert(p[i] == outcomes[i]);
            }
        }
    }
}

/// Below three outcomes, all successful ones lead to the matching intermediate state.
proof fn lemma_prefix_states(p: Seq<bool>)
    requires
        p.len() < 3,
    ensures
        (forall|i: int| 0 <= i < p.len() ==> #[trigger] p[i]) ==> run_of(p) == (if p.len() == 0 {
            SwitchState::Start
        } else if p.len() == 1 {
            SwitchState::GroupsSet
        } else {
            SwitchState::GidSet
        }),
        run_of(p) != SwitchState::Committed,
    decreases p.len(),
{
    if p.len() > 0 {
        let q = p.drop_last();
        lemma_prefix_states(q);
        assert(p.last() == p[p.len() - 1]);
        if forall|i: int| 0 <= i < p.len() ==> #[trigger] p[i] {
            assert forall|i: int| 0 <= i < q.len() implies #[trigger] q[i] by {
                assert(q[i] == p[i]);
            }
        }
    }
}

} // verus!
