use vstd::prelude::*;
use crate::bytes::{bytes_eq, contains_bytes, views};

verus! {

/// Who a rule applies to: one user by name, or every member of a group.
pub enum Subject {
    User(Vec<u8>),
    Group(Vec<u8>),
}

/// Which identities a rule lets its subject become.
pub enum Targets {
    All,
    Users(Vec<Vec<u8>>),
}

pub struct Rule {
    pub subject: Subject,
    pub targets: Targets,
    pub requires_password: bool,
}

/// The loaded configuration: grace window in seconds and the ordered rules.
pub struct Policy {
    pub timeout: u64,
    pub rules: Vec<Rule>,
}

/// The invoking (real) identity as the policy sees it: its name, its uid and
/// the names of the groups it belongs to.
pub struct Invoker {
    pub name: Vec<u8>,
    pub uid: u32,
    pub groups: Vec<Vec<u8>>,
}

#[derive(Clone, Copy, Debug, PartialEq, Eq, Structural)]
pub struct AuthorizationDecision {
    pub allowed: bool,
    pub requires_password: bool,
}

/// A rule as plain values: whether the subject names a group, the subject's
/// name, whether any target is allowed, and otherwise the allowed targets.
pub struct RuleView {
    pub group: bool,
    pub subject: Seq<u8>,
    pub all: bool,
    pub targets: Seq<Seq<u8>>,
    pub requires_password: bool,
}

pub struct PolicyView {
    pub timeout: u64,
    pub rules: Seq<RuleView>,
}

impl View for Rule {
    type V = RuleView;

    open spec fn view(&self) -> RuleView {
        RuleView {
            group: self.subject is Group,
            subject: match self.subject {
                Subject::User(u) => u@,
                Subject::Group(g) => g@,
            },
            all: self.targets is All,
            targets: match self.targets {
                Targets::All => Seq::empty(),
                Targets::Users(v) => views(v@),
            },
            requires_password: self.requires_password,
        }
    }
}

impl View for Policy {
    type V = PolicyView;

    open spec fn view(&self) -> PolicyView {
        PolicyView { timeout: self.timeout, rules: self.rules@.map_values(|r: Rule| r@) }
    }
}

pub open spec fn subject_matches(s: Subject, name: Seq<u8>, groups: Seq<Vec<u8>>) -> bool {
    match s {
        Subject::User(u) => u@ == name,
        Subject::Group(g) => exists|i: int| 0 <= i < groups.len() && #[trigger] groups[i]@ == g@,
    }
}

pub open spec fn targets_include(t: Targets, target: Seq<u8>) -> bool {
    match t {
        Targets::All => true,
        Targets::Users(v) => exists|i: int| 0 <= i < v@.len() && #[trigger] v@[i]@ == target,
    }
}

pub open spec fn rule_matches(r: Rule, inv: Invoker, target: Seq<u8>) -> bool {
    subject_matches(r.subject, inv.name@, inv.groups@) && targets_include(r.targets, target)
}

pub open spec fn denied() -> AuthorizationDecision {
    AuthorizationDecision { allowed: false, requires_password: true }
}

/// The decision of the first rule that matches, or a denial when none does.
pub open spec fn decide(rules: Seq<Rule>, inv: Invoker, target: Seq<u8>) -> AuthorizationDecision
    decreases rules.len(),
{
    if rules.len() == 0 {
        denied()
    } else if rule_matches(rules[0], inv, target) {
        AuthorizationDecision { allowed: true, requires_password: rules[0].requires_password }
    } else {
        decide(rules.drop_first(), inv, target)
    }
}

impl Rule {
    /// Whether this rule grants `inv` the identity named `target`.
    pub fn matches(&self, inv: &Invoker, target: &Vec<u8>) -> (r: bool)
        ensures
            r == rule_matches(*self, *inv, target@),
    {
        let subject_ok = match &self.subject {
            Subject::User(u) => bytes_eq(u, &inv.name),
            Subject::Group(g) => contains_bytes(&inv.groups, g),
        };
        if !subject_ok {
            return false;
        }
        match &self.targets {
            Targets::All => true,
            Targets::Users(v) => contains_bytes(v, target),
        }
    }
}

impl Policy {
    /// Scans the rules in order; the first that matches decides.
    pub fn evaluate(&self, inv: &Invoker, target: &Vec<u8>) -> (d: AuthorizationDecision)
        ensures
            d == decide(self.rules@, *inv, target@),
    {
        let mut i: usize = 0;
        assert(self.rules@.subrange(0, self.rules@.len() as int) =~= self.rules@);
        while i < self.rules.len()
            invariant
                0 <= i <= self.rules@.len(),
                decide(self.rules@, *inv, target@) == decide(
                    self.rules@.subrange(i as int, self.rules@.len() as int),
                    *inv,
                    target@,
                ),
            decreases self.rules@.len() - i,
        {
            let ghost rest = self.rules@.subrange(i as int, self.rules@.len() as int);
            assert(rest[0] == self.rules@[i as int]);
            if self.rules[i].matches(inv, target) {
                return AuthorizationDecision {
                    allowed: true,
                    requires_password: self.rules[i].requires_password,
                };
            }
            assert(rest.drop_first() =~= self.rules@.subrange(i + 1, self.rules@.len() as int));
            i = i + 1;
        }
        assert(self.rules@.subrange(i as int, self.rules@.len() as int).len() == 0);
        AuthorizationDecision { allowed: false, requires_password: true }
    }
}

/// An invoker whom no rule matches is never allowed, whatever the rules say
/// of passwords and whatever any cache holds.
pub proof fn lemma_unmatched_denied(rules: Seq<Rule>, inv: Invoker, target: Seq<u8>)
    requires
        forall|j: int| 0 <= j < rules.len() ==> !rule_matches(#[trigger] rules[j], inv, target),
    ensures
        !decide(rules, inv, target).allowed,
    decreases rules.len(),
{
    if rules.len() > 0 {
        assert(!rule_matches(rules[0], inv, target));
        let rest = rules.drop_first();
        assert forall|j: int| 0 <= j < rest.len() implies !rule_matches(#[trigger] rest[j], inv, target) by {
            assert(rest[j] == rules[j + 1]);
        }
        lemma_unmatched_denied(rest, inv, target);
    }
}

/// The first matching rule decides: rules after it, broader or narrower,
/// have no effect on the outcome.
pub proof fn lemma_first_match_wins(rules: Seq<Rule>, inv: Invoker, target: Seq<u8>, i: int)
    requires
        0 <= i < rules.len(),
        rule_matches(rules[i], inv, target),
        forall|j: int| 0 <= j < i ==> !rule_matches(#[trigger] rules[j], inv, target),
    ensures
        decide(rules, inv, target) == (AuthorizationDecision {
            allowed: true,
            requires_password: rules[i].requires_password,
        }),
    decreases i,
{
    if i > 0 {
        assert(!rule_matches(rules[0], inv, target));
        let rest = rules.drop_first();
        assert forall|j: int| 0 <= j < i - 1 implies !rule_matches(#[trigger] rest[j], inv, target) by {
            assert(rest[j] == rules[j + 1]);
        }
        lemma_first_match_wins(rest, inv, target, i - 1);
    }
}

} // verus!
