use vstd::prelude::*;
use vstd::string::{StrSliceExecFns, StringSliceAdditionalSpecFns};
use crate::bytes::{bytes_eq, contains_bytes, copy_bytes, split, split_on, views, words, words_of};
use crate::cache::{is_storage_trusted, storage_trusted};
use crate::policy::{Policy, PolicyView, Rule, RuleView, Subject, Targets};

verus! {

/// Why a policy file is refused.
#[derive(Clone, Copy, Debug, PartialEq, Eq, Structural)]
pub enum ConfigError {
    NotFound,
    Malformed,
    InsecurePermissions,
}

pub open spec fn digit_value(b: u8) -> nat {
    if 48 <= b <= 57 { (b - 48) as nat } else { 0 }
}

pub open spec fn is_digit(b: u8) -> bool {
    48 <= b <= 57
}

/// The value of a string of decimal digits.
pub open spec fn decimal_value(s: Seq<u8>) -> nat
    decreases s.len(),
{
    if s.len() == 0 {
        0
    } else {
        decimal_value(s.drop_last()) * 10 + digit_value(s.last())
    }
}

/// A non-empty string of decimal digits whose value fits in 64 bits.
pub open spec fn number_of(s: Seq<u8>) -> Option<u64> {
    if s.len() > 0 && (forall|i: int| 0 <= i < s.len() ==> is_digit(#[trigger] s[i]))
        && decimal_value(s) <= u64::MAX {
        Some(decimal_value(s) as u64)
    } else {
        None
    }
}

proof fn lemma_prefix_value_le(s: Seq<u8>, k: int)
    requires
        0 <= k <= s.len(),
    ensures
        decimal_value(s.subrange(0, k)) <= decimal_value(s),
    decreases s.len(),
{
    if k < s.len() {
        assert(s.drop_last().subrange(0, k) =~= s.subrange(0, k));
        lemma_prefix_value_le(s.drop_last(), k);
    } else {
        assert(s.subrange(0, k) =~= s);
    }
}

/// Reads a decimal number of seconds.
pub fn parse_number(w: &Vec<u8>) -> (r: Option<u64>)
    ensures
        r == number_of(w@),
{
    if w.len() == 0 {
        return None;
    }
    let mut v: u64 = 0;
    let mut i: usize = 0;
    assert(w@.subrange(0, 0) =~= Seq::<u8>::empty());
    while i < w.len()
        invariant
            0 <= i <= w@.len(),
            forall|j: int| 0 <= j < i ==> is_digit(#[trigger] w@[j]),
            v as nat == decimal_value(w@.subrange(0, i as int)),
        decreases w@.len() - i,
    {
        let b = w[i];
        if b < 48 || b > 57 {
            return None;
        }
        let d: u64 = (b - 48) as u64;
        let ghost next = w@.subrange(0, i + 1);
        assert(next.drop_last() =~= w@.subrange(0, i as int));
        assert(next.last() == b);
        if v > (u64::MAX - d) / 10 {
            proof {
                lemma_prefix_value_le(w@, i + 1);
            }
            return None;
        }
        v = v * 10 + d;
        i = i + 1;
    }
    assert(w@.subrange(0, w@.len() as int) =~= w@);
    Some(v)
}

/// What one line of a policy file says.
pub enum LineView {
    Skip,
    Timeout(u64),
    Permit(RuleView),
    Bad,
}

pub enum Line {
    Skip,
    Timeout(u64),
    Permit(Rule),
    Bad,
}

impl View for Line {
    type V = LineView;

    open spec fn view(&self) -> LineView {
        match self {
            Line::Skip => LineView::Skip,
            Line::Timeout(n) => LineView::Timeout(*n),
            Line::Permit(r) => LineView::Permit(r@),
            Line::Bad => LineView::Bad,
        }
    }
}

pub open spec fn has_word(ws: Seq<Seq<u8>>, w: Seq<u8>) -> bool {
    exists|i: int| 0 <= i < ws.len() && #[trigger] ws[i] == w
}

/// The rule of `permit [nopass] SUBJECT as TARGET...`, where `start` is the
/// index of SUBJECT. A subject `%name` names a group; a target list that
/// holds `ALL` allows every target.
pub open spec fn permit_of(w: Seq<Seq<u8>>, start: int) -> LineView {
    if w.len() >= start + 3 && w[start + 1] == "as".spec_bytes() && w[start].len() > 0 && w[start]
        != "%".spec_bytes() {
        let group = w[start][0] == 37u8;
        let targets = w.subrange(start + 2, w.len() as int);
        let all = has_word(targets, "ALL".spec_bytes());
        LineView::Permit(
            RuleView {
                group,
                subject: if group { w[start].drop_first() } else { w[start] },
                all,
                targets: if all { Seq::empty() } else { targets },
                requires_password: start == 1,
            },
        )
    } else {
        LineView::Bad
    }
}

/// The meaning of a line given its words: empty lines and lines whose first
/// word starts with `#` say nothing; `timeout N` sets the grace window in
/// seconds; `permit` lines are rules; anything else is malformed.
pub open spec fn line_of(w: Seq<Seq<u8>>) -> LineView {
    if w.len() == 0 || (w[0].len() > 0 && w[0][0] == 35u8) {
        LineView::Skip
    } else if w[0] == "timeout".spec_bytes() {
        if w.len() == 2 && number_of(w[1]) is Some {
            LineView::Timeout(number_of(w[1])->0)
        } else {
            LineView::Bad
        }
    } else if w[0] == "permit".spec_bytes() {
        if w.len() >= 2 && w[1] == "nopass".spec_bytes() {
            permit_of(w, 2)
        } else {
            permit_of(w, 1)
        }
    } else {
        LineView::Bad
    }
}

/// All but the first byte.
fn tail_bytes(v: &Vec<u8>) -> (r: Vec<u8>)
    requires
        v@.len() >= 1,
    ensures
        r@ == v@.drop_first(),
{
    let mut r: Vec<u8> = Vec::new();
    let mut i: usize = 1;
    while i < v.len()
        invariant
            1 <= i <= v@.len(),
            r@ == v@.subrange(1, i as int),
        decreases v@.len() - i,
    {
        r.push(v[i]);
        assert(r@ =~= v@.subrange(1, i + 1));
        i = i + 1;
    }
    assert(r@ =~= v@.drop_first());
    r
}

/// The words from index `start` on.
fn words_from(w: &Vec<Vec<u8>>, start: usize) -> (r: Vec<Vec<u8>>)
    requires
        start <= w@.len(),
    ensures
        views(r@) == views(w@).subrange(start as int, w@.len() as int),
{
    let mut r: Vec<Vec<u8>> = Vec::new();
    let mut i: usize = start;
    while i < w.len()
        invariant
            start <= i <= w@.len(),
            r@.len() == i - start,
            forall|j: int| 0 <= j < r@.len() ==> #[trigger] r@[j]@ == w@[start + j]@,
        decreases w@.len() - i,
    {
        r.push(copy_bytes(&w[i]));
        i = i + 1;
    }
    assert(views(r@) =~= views(w@).subrange(start as int, w@.len() as int));
    r
}

fn parse_permit(w: &Vec<Vec<u8>>, start: usize) -> (r: Line)
    requires
        start == 1 || start == 2,
        w@.len() >= start,
    ensures
        r@ == permit_of(views(w@), start as int),
{
    let ghost ws = views(w@);
    if w.len() < start + 3 {
        return Line::Bad;
    }
    assert(ws[start as int] == w@[start as int]@);
    assert(ws[start + 1] == w@[start + 1]@);
    if !bytes_eq(&w[start + 1], &"as".as_bytes_vec()) || w[start].len() == 0 || bytes_eq(
        &w[start],
        &"%".as_bytes_vec(),
    ) {
        return Line::Bad;
    }
    let group = w[start][0] == 37u8;
    let targets = words_from(w, start + 2);
    let all = contains_bytes(&targets, &"ALL".as_bytes_vec());
    let ghost tv = views(targets@);
    assert(all == has_word(tv, "ALL".spec_bytes())) by {
        if all {
            let i = choose|i: int| 0 <= i < targets@.len() && #[trigger] targets@[i]@ == "ALL".spec_bytes();
            assert(tv[i] == targets@[i]@);
        }
        if has_word(tv, "ALL".spec_bytes()) {
            let i = choose|i: int| 0 <= i < tv.len() && #[trigger] tv[i] == "ALL".spec_bytes();
            assert(tv[i] == targets@[i]@);
        }
    }
    let subject = if group {
        Subject::Group(tail_bytes(&w[start]))
    } else {
        Subject::User(copy_bytes(&w[start]))
    };
    let rule = Rule {
        subject,
        targets: if all { Targets::All } else { Targets::Users(targets) },
        requires_password: start == 1,
    };
    Line::Permit(rule)
}

/// Reads one line from its words.
pub fn parse_line(w: &Vec<Vec<u8>>) -> (r: Line)
    ensures
        r@ == line_of(views(w@)),
{
    let ghost ws = views(w@);
    if w.len() == 0 {
        return Line::Skip;
    }
    assert(ws[0] == w@[0]@);
    if w[0].len() > 0 && w[0][0] == 35u8 {
        return Line::Skip;
    }
    if bytes_eq(&w[0], &"timeout".as_bytes_vec()) {
        if w.len() == 2 {
            assert(ws[1] == w@[1]@);
            match parse_number(&w[1]) {
                Some(n) => Line::Timeout(n),
                None => Line::Bad,
            }
        } else {
            Line::Bad
        }
    } else if bytes_eq(&w[0], &"permit".as_bytes_vec()) {
        if w.len() >= 2 && bytes_eq(&w[1], &"nopass".as_bytes_vec()) {
            assert(ws[1] == w@[1]@);
            parse_permit(w, 2)
        } else {
            if w.len() >= 2 {
                assert(ws[1] == w@[1]@);
            }
            parse_permit(w, 1)
        }
    } else {
        Line::Bad
    }
}

/// Grace window in seconds when the file sets none.
pub const DEFAULT_TIMEOUT: u64 = 300;

/// The timeout set so far, if any, and the rules in file order. A second
/// `timeout` line, or any malformed line, refuses the whole file.
pub open spec fn lines_result(lines: Seq<Seq<u8>>) -> Result<(Option<u64>, Seq<RuleView>), ConfigError>
    decreases lines.len(),
{
    if lines.len() == 0 {
        Ok((None, Seq::empty()))
    } else {
        match lines_result(lines.drop_last()) {
            Err(e) => Err(e),
            Ok((t, rs)) => match line_of(words_of(lines.last())) {
                LineView::Skip => Ok((t, rs)),
                LineView::Timeout(n) => if t is Some {
                    Err(ConfigError::Malformed)
                } else {
                    Ok((Some(n), rs))
                },
                LineView::Permit(r) => Ok((t, rs.push(r))),
                LineView::Bad => Err(ConfigError::Malformed),
            },
        }
    }
}

/// A refusal on some first lines is the refusal of the whole file.
proof fn lemma_error_persists(lines: Seq<Seq<u8>>, k: int)
    requires
        0 <= k <= lines.len(),
        lines_result(lines.subrange(0, k)) is Err,
    ensures
        lines_result(lines) == lines_result(lines.subrange(0, k)),
    decreases lines.len(),
{
    if k < lines.len() {
        assert(lines.drop_last().subrange(0, k) =~= lines.subrange(0, k));
        lemma_error_persists(lines.drop_last(), k);
    } else {
        assert(lines.subrange(0, k) =~= lines);
    }
}

/// The policy that a file's text describes, line by line.
pub open spec fn policy_of(text: Seq<u8>) -> Result<PolicyView, ConfigError> {
    match lines_result(split_on(text, 10u8)) {
        Err(e) => Err(e),
        Ok((t, rs)) => Ok(
            PolicyView { timeout: if t is Some { t->0 } else { DEFAULT_TIMEOUT }, rules: rs },
        ),
    }
}

/// Parses the text of a policy file.
pub fn parse_policy(text: &Vec<u8>) -> (r: Result<Policy, ConfigError>)
    ensures
        match r {
            Ok(p) => policy_of(text@) == Ok::<PolicyView, ConfigError>(p@),
            Err(e) => policy_of(text@) == Err::<PolicyView, ConfigError>(e),
        },
{
    let lines = split(text, 10u8);
    let ghost ls = views(lines@);
    let mut timeout: Option<u64> = None;
    let mut rules: Vec<Rule> = Vec::new();
    let mut i: usize = 0;
    assert(ls.subrange(0, 0) =~= Seq::<Seq<u8>>::empty());
    assert(rules@.map_values(|r: Rule| r@) =~= Seq::<RuleView>::empty());
    while i < lines.len()
        invariant
            ls == views(lines@),
            ls == split_on(text@, 10u8),
            0 <= i <= lines@.len(),
            lines_result(ls.subrange(0, i as int)) == Ok::<(Option<u64>, Seq<RuleView>), ConfigError>(
                (timeout, rules@.map_values(|r: Rule| r@)),
            ),
        decreases lines@.len() - i,
    {
        let ghost pre = ls.subrange(0, i as int);
        let ghost next = ls.subrange(0, i + 1);
        assert(next.drop_last() =~= pre);
        assert(next.last() == lines@[i as int]@);
        let ws = words(&lines[i]);
        match parse_line(&ws) {
            Line::Skip => {},
            Line::Timeout(n) => {
                if timeout.is_some() {
                    proof {
                        lemma_error_persists(ls, i + 1);
                    }
                    return Err(ConfigError::Malformed);
                }
                timeout = Some(n);
            },
            Line::Permit(rule) => {
                let ghost before = rules@;
                rules.push(rule);
                assert(rules@.map_values(|r: Rule| r@) =~= before.map_values(|r: Rule| r@).push(
                    rule@,
                ));
            },
            Line::Bad => {
                proof {
                    lemma_error_persists(ls, i + 1);
                }
                return Err(ConfigError::Malformed);
            },
        }
        i = i + 1;
    }
    assert(ls.subrange(0, lines@.len() as int) =~= ls);
    let t = match timeout {
        Some(n) => n,
        None => DEFAULT_TIMEOUT,
    };
    Ok(Policy { timeout: t, rules })
}

/// The outcome of loading a policy file with the given owner, permission
/// bits and text: a file that anyone but the privileged owner could have
/// written is refused before its text is read.
pub open spec fn load_of(owner_uid: u32, mode: u32, text: Seq<u8>) -> Result<PolicyView, ConfigError> {
    if !storage_trusted(owner_uid, mode) {
        Err(ConfigError::InsecurePermissions)
    } else {
        policy_of(text)
    }
}

pub fn load_policy(owner_uid: u32, mode: u32, text: &Vec<u8>) -> (r: Result<Policy, ConfigError>)
    ensures
        match r {
            Ok(p) => load_of(owner_uid, mode, text@) == Ok::<PolicyView, ConfigError>(p@),
            Err(e) => load_of(owner_uid, mode, text@) == Err::<PolicyView, ConfigError>(e),
        },
{
    if !is_storage_trusted(owner_uid, mode) {
        return Err(ConfigError::InsecurePermissions);
    }
    parse_policy(text)
}

} // verus!
