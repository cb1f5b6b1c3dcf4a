use elev::config::{load_policy, parse_number, parse_policy, ConfigError, DEFAULT_TIMEOUT};
use elev::engine::{authorize, gate, EngineError, Gate};
use elev::policy::{AuthorizationDecision, Invoker, Policy, Rule, Subject, Targets};

fn b(s: &str) -> Vec<u8> {
    s.as_bytes().to_vec()
}

fn invoker(name: &str, uid: u32, groups: &[&str]) -> Invoker {
    Invoker { name: b(name), uid, groups: groups.iter().map(|g| b(g)).collect() }
}

fn user_rule(subject: &str, targets: Option<&[&str]>, pw: bool) -> Rule {
    Rule {
        subject: Subject::User(b(subject)),
        targets: match targets {
            None => Targets::All,
            Some(t) => Targets::Users(t.iter().map(|x| b(x)).collect()),
        },
        requires_password: pw,
    }
}

#[test]
fn unmatched_invoker_is_denied_whatever_the_cache() {
    let policy = Policy { timeout: 300, rules: vec![user_rule("alice", None, false)] };
    let carol = invoker("carol", 1002, &["users"]);
    let d = policy.evaluate(&carol, &b("root"));
    assert!(!d.allowed);
    assert_eq!(gate(d, true), Gate::Deny);
    assert_eq!(gate(d, false), Gate::Deny);
    assert_eq!(authorize(&policy, &carol, &b("root")), Err(EngineError::NotPermitted));
}

#[test]
fn empty_policy_denies_everyone() {
    let policy = Policy { timeout: 300, rules: vec![] };
    let d = policy.evaluate(&invoker("alice", 1000, &["wheel"]), &b("root"));
    assert!(!d.allowed);
}

#[test]
fn first_matching_rule_wins() {
    // broad rule first, narrower rule for the same subject second
    let policy = Policy {
        timeout: 300,
        rules: vec![user_rule("bob", None, true), user_rule("bob", Some(&["root"]), false)],
    };
    let d = policy.evaluate(&invoker("bob", 1001, &[]), &b("root"));
    assert_eq!(d, AuthorizationDecision { allowed: true, requires_password: true });

    let reversed = Policy {
        timeout: 300,
        rules: vec![user_rule("bob", Some(&["root"]), false), user_rule("bob", None, true)],
    };
    let d = reversed.evaluate(&invoker("bob", 1001, &[]), &b("root"));
    assert_eq!(d, AuthorizationDecision { allowed: true, requires_password: false });
    let d = reversed.evaluate(&invoker("bob", 1001, &[]), &b("backup"));
    assert_eq!(d, AuthorizationDecision { allowed: true, requires_password: true });
}

#[test]
fn group_rule_matches_members_only() {
    let policy = Policy {
        timeout: 300,
        rules: vec![Rule {
            subject: Subject::Group(b("wheel")),
            targets: Targets::Users(vec![b("root")]),
            requires_password: true,
        }],
    };
    let member = invoker("dave", 1003, &["users", "wheel"]);
    assert!(policy.evaluate(&member, &b("root")).allowed);
    assert!(!policy.evaluate(&member, &b("postgres")).allowed);
    let outsider = invoker("erin", 1004, &["users"]);
    assert!(!policy.evaluate(&outsider, &b("root")).allowed);
}

#[test]
fn root_invoker_refused_before_policy() {
    let policy = Policy { timeout: 300, rules: vec![user_rule("root", None, false)] };
    let root = invoker("root", 0, &["root"]);
    assert_eq!(authorize(&policy, &root, &b("root")), Err(EngineError::RootInvoker));
}

#[test]
fn parses_a_policy_file() {
    let text = b("# elevation rules\ntimeout 600\n\npermit nopass alice as ALL\npermit  %wheel as root postgres\n");
    let p = parse_policy(&text).unwrap();
    assert_eq!(p.timeout, 600);
    assert_eq!(p.rules.len(), 2);
    assert!(matches!(&p.rules[0].subject, Subject::User(u) if u == &b("alice")));
    assert!(matches!(p.rules[0].targets, Targets::All));
    assert!(!p.rules[0].requires_password);
    assert!(matches!(&p.rules[1].subject, Subject::Group(g) if g == &b("wheel")));
    assert!(matches!(&p.rules[1].targets, Targets::Users(v) if v == &vec![b("root"), b("postgres")]));
    assert!(p.rules[1].requires_password);
}

#[test]
fn missing_timeout_takes_the_default() {
    let p = parse_policy(&b("permit bob as root")).unwrap();
    assert_eq!(p.timeout, DEFAULT_TIMEOUT);
    assert_eq!(p.rules.len(), 1);
}

#[test]
fn malformed_files_are_refused() {
    assert_eq!(parse_policy(&b("timeout 5\ntimeout 6\n")).err(), Some(ConfigError::Malformed));
    assert_eq!(parse_policy(&b("timeout five\n")).err(), Some(ConfigError::Malformed));
    assert_eq!(parse_policy(&b("permit bob root\n")).err(), Some(ConfigError::Malformed));
    assert_eq!(parse_policy(&b("permit % as root\n")).err(), Some(ConfigError::Malformed));
    assert_eq!(parse_policy(&b("allow bob as root\n")).err(), Some(ConfigError::Malformed));
    assert_eq!(parse_policy(&b("permit nopass bob as\n")).err(), Some(ConfigError::Malformed));
}

#[test]
fn insecure_policy_file_is_refused() {
    let text = b("permit bob as root\n");
    assert_eq!(load_policy(1000, 0o600, &text).err(), Some(ConfigError::InsecurePermissions));
    assert_eq!(load_policy(0, 0o666, &text).err(), Some(ConfigError::InsecurePermissions));
    assert_eq!(load_policy(0, 0o620, &text).err(), Some(ConfigError::InsecurePermissions));
    assert!(load_policy(0, 0o600, &text).is_ok());
    assert!(load_policy(0, 0o400, &text).is_ok());
}

#[test]
fn numbers_are_read_exactly() {
    assert_eq!(parse_number(&b("0")), Some(0));
    assert_eq!(parse_number(&b("300")), Some(300));
    assert_eq!(parse_number(&b("18446744073709551615")), Some(u64::MAX));
    assert_eq!(parse_number(&b("18446744073709551616")), None);
    assert_eq!(parse_number(&b("")), None);
    assert_eq!(parse_number(&b("12a")), None);
}

#[test]
fn parsed_policy_evaluates_in_file_order() {
    let p = parse_policy(&b("permit bob as root\npermit nopass bob as ALL\n")).unwrap();
    let bob = invoker("bob", 1001, &[]);
    assert_eq!(p.evaluate(&bob, &b("root")), AuthorizationDecision { allowed: true, requires_password: true });
    assert_eq!(p.evaluate(&bob, &b("www")), AuthorizationDecision { allowed: true, requires_password: false });
    assert_eq!(gate(p.evaluate(&bob, &b("root")), false), Gate::Prompt);
    assert_eq!(gate(p.evaluate(&bob, &b("root")), true), Gate::Proceed);
}
