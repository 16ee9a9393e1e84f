//! The command line: what the arguments ask for, and which of them are refused.

use crate::event;
use crate::text;
use vstd::prelude::*;

pub use crate::commands::{run_ci, run_issue, run_pr};

verus! {

// ---------------------------------------------------------------------------
// Numbers of issues and pull requests

/// The number that `s` stands for as an unsigned 64-bit number: digits, with a plus
/// sign before them or none.
pub open spec fn unsigned_of(s: Seq<char>) -> Option<int> {
    let d = if s.len() > 0 && s[0] == '+' {
        s.skip(1)
    } else {
        s
    };
    if d.len() > 0 && text::all_digits(d) && text::digits_value(d) <= u64::MAX {
        Some(text::digits_value(d))
    } else {
        None
    }
}

/// The number that `s` stands for as the number of an issue or a pull request, or
/// what is wrong with it.
pub open spec fn entity_id_of(s: Seq<char>) -> Result<int, Seq<char>> {
    if s.len() == 0 {
        Err("empty entity id"@)
    } else {
        match unsigned_of(s) {
            None => Err("invalid entity id '"@ + s + "' (expected a positive integer)"@),
            Some(n) => if n == 0 {
                Err("entity id must be positive"@)
            } else {
                Ok(n)
            },
        }
    }
}

/// Does a result agree with its statement?
pub open spec fn number_agrees(r: Result<u64, String>, m: Result<int, Seq<char>>) -> bool {
    match (r, m) {
        (Ok(n), Ok(k)) => n == k,
        (Err(e), Err(t)) => e@ == t,
        _ => false,
    }
}

/// The number that `s` stands for.
pub fn parse_unsigned(s: &str) -> (r: Option<u64>)
    ensures
        match r {
            Some(n) => unsigned_of(s@) == Some(n as int),
            None => unsigned_of(s@) is None,
        },
{
    let v = text::chars_of(s);
    let from: usize = if v.len() > 0 && v[0] == '+' {
        1
    } else {
        0
    };
    let ghost d = v@.subrange(from as int, v@.len() as int);
    proof {
        if from == 1 {
            assert(d =~= s@.skip(1));
        } else {
            assert(d =~= s@);
        }
    }
    let mut i: usize = from;
    while i < v.len()
        invariant
            from <= i <= v@.len(),
            v@ == s@,
            d == v@.subrange(from as int, v@.len() as int),
            d == (if s@.len() > 0 && s@[0] == '+' {
                s@.skip(1)
            } else {
                s@
            }),
            forall|k: int| 0 <= k < i - from ==> text::is_digit(#[trigger] d[k]),
        decreases v@.len() - i,
    {
        let c = v[i];
        if !('0' <= c && c <= '9') {
            assert(d[i - from] == c);
            return None;
        }
        assert(d[i - from] == c);
        i = i + 1;
    }
    if from == v.len() {
        return None;
    }
    text::digits_to_u64(v.as_slice(), from, v.len())
}

/// The number of an issue or a pull request: a positive integer.
pub fn parse_entity_id(s: &str) -> (r: Result<u64, String>)
    ensures
        number_agrees(r, entity_id_of(s@)),
{
    if s.unicode_len() == 0 {
        return Err("empty entity id".to_owned());
    }
    match parse_unsigned(s) {
        None => {
            let mut e = "invalid entity id '".to_owned();
            e.append(s);
            e.append("' (expected a positive integer)");
            Err(e)
        },
        Some(n) => if n == 0 {
            Err("entity id must be positive".to_owned())
        } else {
            Ok(n)
        },
    }
}

/// The argument at `i`; empty where there is none.
pub open spec fn arg_at(args: Seq<Seq<char>>, i: int) -> Seq<char> {
    if 0 <= i < args.len() {
        args[i]
    } else {
        seq![]
    }
}

/// The number that the argument at `i` stands for.
fn id_at(args: &[String], i: usize) -> (r: Result<u64, String>)
    ensures
        number_agrees(r, entity_id_of(arg_at(event::texts(args@), i as int))),
{
    if i < args.len() {
        parse_entity_id(args[i].as_str())
    } else {
        let r = parse_entity_id("");
        proof {
            reveal_strlit("");
            assert(""@ =~= seq![]);
        }
        r
    }
}

/// Is the argument at `i` the word `w`?
fn arg_is(args: &[String], i: usize, w: &str) -> (r: bool)
    requires
        i < args@.len(),
    ensures
        r == (event::texts(args@)[i as int] == w@),
{
    text::same(args[i].as_str(), w)
}

// ---------------------------------------------------------------------------
// Help

/// Is help asked for: does `-h` or `--help` stand among the arguments from `i` on,
/// before a `--`?
pub open spec fn help_asked(args: Seq<Seq<char>>, i: int) -> bool
    decreases args.len() - i,
{
    if 0 <= i < args.len() && args[i] != "--"@ {
        args[i] == "-h"@ || args[i] == "--help"@ || help_asked(args, i + 1)
    } else {
        false
    }
}

/// Is help asked for among the arguments from `from` on?
pub fn help_requested(args: &[String], from: usize) -> (r: bool)
    ensures
        r == help_asked(event::texts(args@), from as int),
{
    let mut i: usize = from;
    while i < args.len()
        invariant
            from <= i,
            help_asked(event::texts(args@), from as int) == help_asked(event::texts(args@), i as int),
        decreases args@.len() - i,
    {
        if arg_is(args, i, "--") {
            return false;
        }
        if arg_is(args, i, "-h") || arg_is(args, i, "--help") {
            return true;
        }
        i = i + 1;
    }
    false
}

// ---------------------------------------------------------------------------
// A new issue

/// What a new issue is to hold.
#[verifier::ext_equal]
pub struct NewIssueModel {
    pub title: Seq<char>,
    pub description: Option<Seq<char>>,
    pub labels: Seq<Seq<char>>,
}

/// What a new issue is to hold.
#[derive(Debug, Clone, PartialEq, Eq)]
pub struct NewIssue {
    pub title: String,
    pub description: Option<String>,
    pub labels: Vec<String>,
}

impl View for NewIssue {
    type V = NewIssueModel;

    open spec fn view(&self) -> NewIssueModel {
        NewIssueModel {
            title: self.title@,
            description: event::opt_text(self.description),
            labels: event::texts(self.labels@),
        }
    }
}

/// The usage of `issue new`.
pub open spec fn new_usage() -> Seq<char> {
    "usage: git forge issue new <title> [description] [--label <x>]..."@
}

/// Is `s` the flag of a label?
pub open spec fn is_label_flag(s: Seq<char>) -> bool {
    s == "--label"@ || s == "-l"@
}

/// The label that stands behind its flag at `i`, or what is wrong.
pub open spec fn label_at(args: Seq<Seq<char>>, i: int) -> Result<Seq<char>, Seq<char>> {
    if i >= args.len() {
        Err("--label requires a value"@)
    } else if text::trimmed(args[i]).len() == 0 {
        Err("--label requires a non-empty value"@)
    } else {
        Ok(text::trimmed(args[i]))
    }
}

/// The labels and the other arguments from `i` on, behind those read before. Behind
/// `--` every argument counts as it stands.
pub open spec fn labels_and_rest(
    args: Seq<Seq<char>>,
    i: int,
    labels: Seq<Seq<char>>,
    rest: Seq<Seq<char>>,
) -> Result<(Seq<Seq<char>>, Seq<Seq<char>>), Seq<char>>
    decreases args.len() - i,
{
    if !(0 <= i < args.len()) {
        Ok((labels, rest))
    } else if args[i] == "--"@ {
        Ok((labels, rest + args.skip(i + 1)))
    } else if is_label_flag(args[i]) {
        match label_at(args, i + 1) {
            Err(e) => Err(e),
            Ok(l) => labels_and_rest(args, i + 2, labels.push(l), rest),
        }
    } else {
        labels_and_rest(args, i + 1, labels, rest.push(args[i]))
    }
}

/// The issue that the arguments of `issue new` ask for, or what is wrong with them.
pub open spec fn new_issue_of(args: Seq<Seq<char>>) -> Result<NewIssueModel, Seq<char>> {
    match labels_and_rest(args, 0, seq![], seq![]) {
        Err(e) => Err(e),
        Ok((labels, rest)) => if rest.len() == 0 || text::trimmed(rest[0]).len() == 0 {
            Err(new_usage() + " — title is required and non-empty"@)
        } else if rest.len() > 2 {
            Err(new_usage() + " — too many positional arguments"@)
        } else {
            Ok(
                NewIssueModel {
                    title: text::trimmed(rest[0]),
                    description: if rest.len() == 2 && text::trimmed(rest[1]).len() > 0 {
                        Some(text::trimmed(rest[1]))
                    } else {
                        None
                    },
                    labels,
                },
            )
        },
    }
}

/// The label that stands behind its flag at `i`.
fn read_label(args: &[String], i: usize) -> (r: Result<String, String>)
    ensures
        match (r, label_at(event::texts(args@), i as int)) {
            (Ok(l), Ok(m)) => l@ == m,
            (Err(e), Err(m)) => e@ == m,
            _ => false,
        },
{
    if i >= args.len() {
        return Err("--label requires a value".to_owned());
    }
    let l = text::trim_string(args[i].as_str());
    if l.as_str().unicode_len() == 0 {
        return Err("--label requires a non-empty value".to_owned());
    }
    Ok(l)
}

/// Appends a copy of `s`.
fn push_copy(v: &mut Vec<String>, s: &str)
    ensures
        event::texts(final(v)@) == event::texts(old(v)@).push(s@),
{
    let ghost before = v@;
    v.push(s.to_owned());
    assert(event::texts(v@) =~= event::texts(before).push(s@));
}

/// Appends a string.
fn push_string(v: &mut Vec<String>, s: String)
    ensures
        event::texts(final(v)@) == event::texts(old(v)@).push(s@),
{
    let ghost before = v@;
    v.push(s);
    assert(event::texts(v@) =~= event::texts(before).push(s@));
}

/// Reads the arguments of `issue new <title> [description] [--label <x>]...`.
pub fn parse_new_issue(args: &[String]) -> (r: Result<NewIssue, String>)
    ensures
        match (r, new_issue_of(event::texts(args@))) {
            (Ok(n), Ok(m)) => n@ == m,
            (Err(e), Err(m)) => e@ == m,
            _ => false,
        },
{
    let ghost all = event::texts(args@);
    let mut labels: Vec<String> = Vec::new();
    let mut rest: Vec<String> = Vec::new();
    let mut i: usize = 0;
    let ghost goal = labels_and_rest(all, 0, seq![], seq![]);
    assert(event::texts(labels@) =~= seq![]);
    assert(event::texts(rest@) =~= seq![]);
    while i < args.len()
        invariant
            all == event::texts(args@),
            goal == labels_and_rest(all, 0, seq![], seq![]),
            goal == labels_and_rest(all, i as int, event::texts(labels@), event::texts(rest@)),
        decreases args@.len() - i,
    {
        if arg_is(args, i, "--") {
            let ghost start = event::texts(rest@);
            let mut k: usize = i + 1;
            assert(all.subrange(i + 1, k as int) =~= seq![]);
            assert(start + seq![] =~= start);
            while k < args.len()
                invariant
                    i < k <= args@.len(),
                    all == event::texts(args@),
                    event::texts(rest@) == start + all.subrange(i + 1, k as int),
                decreases args@.len() - k,
            {
                push_copy(&mut rest, args[k].as_str());
                k = k + 1;
                assert(event::texts(rest@) =~= start + all.subrange(i + 1, k as int));
            }
            assert(all.subrange(i + 1, k as int) =~= all.skip(i + 1));
            i = args.len();
            assert(goal == labels_and_rest(all, i as int, event::texts(labels@), event::texts(rest@)));
        } else if arg_is(args, i, "--label") || arg_is(args, i, "-l") {
            match read_label(args, i + 1) {
                Err(e) => {
                    return Err(e);
                },
                Ok(l) => {
                    push_string(&mut labels, l);
                    i = i + 2;
                },
            }
        } else {
            push_copy(&mut rest, args[i].as_str());
            i = i + 1;
        }
    }
    assert(goal == Ok::<(Seq<Seq<char>>, Seq<Seq<char>>), Seq<char>>((event::texts(labels@), event::texts(rest@))));
    let ghost rest_texts = event::texts(rest@);
    if rest.len() == 0 {
        return Err(
            text::join2(
                "usage: git forge issue new <title> [description] [--label <x>]...",
                " — title is required and non-empty",
            ),
        );
    }
    assert(rest_texts[0] == rest@[0]@);
    let title = text::trim_string(rest[0].as_str());
    if title.as_str().unicode_len() == 0 {
        return Err(
            text::join2(
                "usage: git forge issue new <title> [description] [--label <x>]...",
                " — title is required and non-empty",
            ),
        );
    }
    if rest.len() > 2 {
        return Err(
            text::join2(
                "usage: git forge issue new <title> [description] [--label <x>]...",
                " — too many positional arguments",
            ),
        );
    }
    let mut description: Option<String> = None;
    if rest.len() == 2 {
        assert(rest_texts[1] == rest@[1]@);
        let d = text::trim_string(rest[1].as_str());
        if d.as_str().unicode_len() > 0 {
            description = Some(d);
        }
    }
    Ok(NewIssue { title, description, labels })
}

// ---------------------------------------------------------------------------
// A comment

/// The comment that the arguments ask for, or what is wrong with them.
pub open spec fn comment_of(args: Seq<Seq<char>>, usage: Seq<char>) -> Result<
    (int, Seq<char>),
    Seq<char>,
> {
    if args.len() < 2 {
        Err(usage)
    } else {
        match entity_id_of(args[0]) {
            Err(e) => Err(e),
            Ok(id) => {
                let body = text::trimmed(text::joined(args.skip(1), " "@));
                if body.len() == 0 {
                    Err("comment body must be non-empty"@)
                } else {
                    Ok((id, body))
                }
            },
        }
    }
}

/// Reads the arguments of a `comment <n> <body>`.
pub fn parse_comment(args: &[String], usage: &str) -> (r: Result<(u64, String), String>)
    ensures
        match (r, comment_of(event::texts(args@), usage@)) {
            (Ok(n), Ok(m)) => n.0 == m.0 && n.1@ == m.1,
            (Err(e), Err(m)) => e@ == m,
            _ => false,
        },
{
    if args.len() < 2 {
        return Err(usage.to_owned());
    }
    assert(event::texts(args@)[0] == args@[0]@);
    match parse_entity_id(args[0].as_str()) {
        Err(e) => Err(e),
        Ok(id) => {
            let body = text::trim_string(text::join_from(args, 1, " ").as_str());
            if body.as_str().unicode_len() == 0 {
                Err("comment body must be non-empty".to_owned())
            } else {
                Ok((id, body))
            }
        },
    }
}

// ---------------------------------------------------------------------------
// A new pull request

/// What a new pull request is to be made of, as far as the arguments say.
#[verifier::ext_equal]
pub struct NewPrModel {
    pub source: Option<Seq<char>>,
    pub base: Option<Seq<char>>,
    pub title: Option<Seq<char>>,
    pub body: Option<Seq<char>>,
    pub labels: Seq<Seq<char>>,
}

/// What a new pull request is to be made of.
#[derive(Debug, Clone, PartialEq, Eq)]
pub struct NewPr {
    pub source: String,
    pub base: String,
    /// The title as it was given; it is stored without the white space around it.
    pub title: String,
    pub body: Option<String>,
    pub labels: Vec<String>,
}

/// The title under which a new pull request is stored: the given one without the white
/// space around it.
pub fn stored_title(new: &NewPr) -> (r: String)
    ensures
        r@ == text::trimmed(new.title@),
{
    text::trim_string(new.title.as_str())
}

/// Nothing said yet.
pub open spec fn no_pr_args() -> NewPrModel {
    NewPrModel { source: None, base: None, title: None, body: None, labels: seq![] }
}

/// What is told of too many arguments.
pub open spec fn create_too_many() -> Seq<char> {
    "too many positional arguments; usage: git forge pr create --source <branch> --base <branch> <title>"@
}

/// The usage of `pr create`.
pub open spec fn create_usage() -> Seq<char> {
    "usage: git forge pr create --source <branch> --base <branch> <title>"@
}

/// What the arguments of `pr create` say from `i` on, behind what was read before.
pub open spec fn pr_args_from(args: Seq<Seq<char>>, i: int, so_far: NewPrModel) -> Result<
    NewPrModel,
    Seq<char>,
>
    decreases args.len() - i,
{
    if !(0 <= i < args.len()) {
        Ok(so_far)
    } else if args[i] == "--"@ {
        if i + 1 == args.len() {
            Ok(so_far)
        } else if so_far.title is Some || i + 2 < args.len() {
            Err(create_too_many())
        } else {
            Ok(NewPrModel { title: Some(args[i + 1]), ..so_far })
        }
    } else if args[i] == "--source"@ {
        if i + 1 >= args.len() {
            Err("--source requires a branch name"@)
        } else {
            pr_args_from(args, i + 2, NewPrModel { source: Some(args[i + 1]), ..so_far })
        }
    } else if args[i] == "--base"@ {
        if i + 1 >= args.len() {
            Err("--base requires a branch name"@)
        } else {
            pr_args_from(args, i + 2, NewPrModel { base: Some(args[i + 1]), ..so_far })
        }
    } else if args[i] == "--body"@ {
        if i + 1 >= args.len() {
            Err("--body requires a description"@)
        } else {
            pr_args_from(
                args,
                i + 2,
                NewPrModel { body: Some(text::trimmed(args[i + 1])), ..so_far },
            )
        }
    } else if is_label_flag(args[i]) {
        match label_at(args, i + 1) {
            Err(e) => Err(e),
            Ok(l) => pr_args_from(
                args,
                i + 2,
                NewPrModel { labels: so_far.labels.push(l), ..so_far },
            ),
        }
    } else if args[i].len() > 0 && args[i][0] == '-' {
        Err("unknown option '"@ + args[i] + "'"@)
    } else if so_far.title is None {
        pr_args_from(args, i + 1, NewPrModel { title: Some(args[i]), ..so_far })
    } else {
        Err(create_too_many())
    }
}

/// What the arguments of `pr create` ask for, or what is wrong with them. An empty
/// description counts as none.
pub open spec fn new_pr_of(args: Seq<Seq<char>>) -> Result<NewPrModel, Seq<char>> {
    match pr_args_from(args, 0, no_pr_args()) {
        Err(e) => Err(e),
        Ok(m) => if m.source is None || m.base is None || m.title is None {
            Err(create_usage())
        } else if text::trimmed(m.title.unwrap()).len() == 0 {
            Err("PR title is required and must be non-empty"@)
        } else if m.body is Some && m.body.unwrap().len() == 0 {
            Ok(NewPrModel { body: None, ..m })
        } else {
            Ok(m)
        },
    }
}

impl View for NewPr {
    type V = NewPrModel;

    open spec fn view(&self) -> NewPrModel {
        NewPrModel {
            source: Some(self.source@),
            base: Some(self.base@),
            title: Some(self.title@),
            body: event::opt_text(self.body),
            labels: event::texts(self.labels@),
        }
    }
}

/// What is told of an unknown option.
fn unknown_option(s: &str) -> (r: String)
    ensures
        r@ == "unknown option '"@ + s@ + "'"@,
{
    let mut e = "unknown option '".to_owned();
    e.append(s);
    e.append("'");
    e
}

/// Does `s` begin with a hyphen?
fn is_option(s: &str) -> (r: bool)
    ensures
        r == (s@.len() > 0 && s@[0] == '-'),
{
    s.unicode_len() > 0 && s.get_char(0) == '-'
}

/// Reads the arguments of `pr create --source <branch> --base <branch> <title>
/// [--body <text>] [--label <x>]...`.
pub fn parse_new_pr(args: &[String]) -> (r: Result<NewPr, String>)
    ensures
        match (r, new_pr_of(event::texts(args@))) {
            (Ok(n), Ok(m)) => n@ == m,
            (Err(e), Err(m)) => e@ == m,
            _ => false,
        },
{
    let ghost all = event::texts(args@);
    let ghost goal = pr_args_from(all, 0, no_pr_args());
    let mut source: Option<String> = None;
    let mut base: Option<String> = None;
    let mut title: Option<String> = None;
    let mut body: Option<String> = None;
    let mut labels: Vec<String> = Vec::new();
    let mut i: usize = 0;
    assert(event::texts(labels@) =~= seq![]);
    while i < args.len()
        invariant
            all == event::texts(args@),
            goal == pr_args_from(all, 0, no_pr_args()),
            goal == pr_args_from(
                all,
                i as int,
                NewPrModel {
                    source: event::opt_text(source),
                    base: event::opt_text(base),
                    title: event::opt_text(title),
                    body: event::opt_text(body),
                    labels: event::texts(labels@),
                },
            ),
        decreases args@.len() - i,
    {
        let ghost so_far = NewPrModel {
            source: event::opt_text(source),
            base: event::opt_text(base),
            title: event::opt_text(title),
            body: event::opt_text(body),
            labels: event::texts(labels@),
        };
        assert(all[i as int] == args@[i as int]@);
        if arg_is(args, i, "--") {
            if i + 1 < args.len() {
                if title.is_some() || i + 2 < args.len() {
                    return Err(
                        "too many positional arguments; usage: git forge pr create --source <branch> --base <branch> <title>".to_owned(),
                    );
                }
                assert(all[i + 1] == args@[i + 1]@);
                title = Some(args[i + 1].clone());
            }
            i = args.len();
        } else if arg_is(args, i, "--source") {
            if i + 1 >= args.len() {
                return Err("--source requires a branch name".to_owned());
            }
            assert(all[i + 1] == args@[i + 1]@);
            source = Some(args[i + 1].clone());
            i = i + 2;
        } else if arg_is(args, i, "--base") {
            if i + 1 >= args.len() {
                return Err("--base requires a branch name".to_owned());
            }
            assert(all[i + 1] == args@[i + 1]@);
            base = Some(args[i + 1].clone());
            i = i + 2;
        } else if arg_is(args, i, "--body") {
            if i + 1 >= args.len() {
                return Err("--body requires a description".to_owned());
            }
            assert(all[i + 1] == args@[i + 1]@);
            body = Some(text::trim_string(args[i + 1].as_str()));
            i = i + 2;
        } else if arg_is(args, i, "--label") || arg_is(args, i, "-l") {
            match read_label(args, i + 1) {
                Err(e) => {
                    return Err(e);
                },
                Ok(l) => {
                    push_string(&mut labels, l);
                    i = i + 2;
                },
            }
        } else if is_option(args[i].as_str()) {
            return Err(unknown_option(args[i].as_str()));
        } else if title.is_none() {
            title = Some(args[i].clone());
            i = i + 1;
        } else {
            return Err(
                "too many positional arguments; usage: git forge pr create --source <branch> --base <branch> <title>".to_owned(),
            );
        }
    }
    match (source, base, title) {
        (Some(source), Some(base), Some(title)) => {
            if text::trim_string(title.as_str()).as_str().unicode_len() == 0 {
                return Err("PR title is required and must be non-empty".to_owned());
            }
            let body = match body {
                Some(b) => if b.as_str().unicode_len() == 0 {
                    None
                } else {
                    Some(b)
                },
                None => None,
            };
            Ok(NewPr { source, base, title, body, labels })
        },
        _ => Err(
            "usage: git forge pr create --source <branch> --base <branch> <title>".to_owned(),
        ),
    }
}

// ---------------------------------------------------------------------------
// Branches

/// What is told of an argument that is no local branch.
pub open spec fn no_branch(arg: Seq<char>) -> Seq<char> {
    "'"@ + arg
        + "' is not a canonical local branch; use a plain branch name (tags, remote-tracking refs, OIDs, and revision expressions are rejected)"@
}

/// The bare name and the ref of the branch that an argument names, or what is wrong
/// with it. The full form `refs/heads/<name>` and the bare one are both in order.
pub open spec fn branch_of(arg: Seq<char>) -> Result<(Seq<char>, Seq<char>), Seq<char>> {
    if arg.len() == 0 {
        Err("branch name must be non-empty"@)
    } else if text::starts_with(arg, "refs/heads/"@) {
        let name = arg.skip("refs/heads/"@.len() as int);
        if name.len() == 0 {
            Err(no_branch(arg))
        } else {
            Ok((name, arg))
        }
    } else {
        Ok((arg, "refs/heads/"@ + arg))
    }
}

/// What is told of an argument that is no local branch.
pub fn not_a_branch(arg: &str) -> (r: String)
    ensures
        r@ == no_branch(arg@),
{
    let mut e = "'".to_owned();
    e.append(arg);
    e.append(
        "' is not a canonical local branch; use a plain branch name (tags, remote-tracking refs, OIDs, and revision expressions are rejected)",
    );
    e
}

/// The bare name and the ref of the branch that an argument names.
pub fn branch_ref(arg: &str) -> (r: Result<(String, String), String>)
    ensures
        match (r, branch_of(arg@)) {
            (Ok(n), Ok(m)) => n.0@ == m.0 && n.1@ == m.1,
            (Err(e), Err(m)) => e@ == m,
            _ => false,
        },
{
    let v = text::chars_of(arg);
    if v.len() == 0 {
        return Err("branch name must be non-empty".to_owned());
    }
    if text::has_prefix(v.as_slice(), "refs/heads/") {
        let n = "refs/heads/".unicode_len();
        if v.len() == n {
            assert(arg@.skip(n as int) =~= seq![]);
            return Err(not_a_branch(arg));
        }
        let name = text::string_of(v.as_slice(), n, v.len());
        assert(name@ =~= arg@.skip(n as int));
        Ok((name, arg.to_owned()))
    } else {
        Ok((arg.to_owned(), text::join2("refs/heads/", arg)))
    }
}

/// The ref of a branch is `refs/heads/` and its bare name, in whichever form it was
/// given.
pub proof fn law_branch_ref_of_name(arg: Seq<char>)
    ensures
        branch_of(arg) matches Ok((name, full)) ==> full == "refs/heads/"@ + name && name.len() > 0,
{
    if text::starts_with(arg, "refs/heads/"@) {
        let n = "refs/heads/"@.len() as int;
        assert(arg =~= arg.take(n) + arg.skip(n));
    }
}

// ---------------------------------------------------------------------------
// A review

/// What a review says, as far as the arguments say.
#[verifier::ext_equal]
pub struct ReviewModel {
    pub decision: Option<Seq<char>>,
    pub file: Option<Seq<char>>,
    pub line: Option<Seq<char>>,
    pub commit: Option<Seq<char>>,
}

/// What a review says.
#[derive(Debug, Clone, PartialEq, Eq)]
pub struct Review {
    pub id: u64,
    pub approve: bool,
    pub file: Option<String>,
    pub line: Option<String>,
    pub commit: Option<String>,
}

/// The name of a decision.
pub open spec fn decision_name(approve: bool) -> Seq<char> {
    if approve {
        "approve"@
    } else {
        "reject"@
    }
}

/// The name of a decision.
pub fn decision_str(approve: bool) -> (r: &'static str)
    ensures
        r@ == decision_name(approve),
{
    if approve {
        "approve"
    } else {
        "reject"
    }
}

/// What the arguments of `pr review` say from `i` on, behind what was read before.
pub open spec fn review_args_from(args: Seq<Seq<char>>, i: int, so_far: ReviewModel) -> Result<
    ReviewModel,
    Seq<char>,
>
    decreases args.len() - i,
{
    if !(0 <= i < args.len()) {
        Ok(so_far)
    } else if args[i] == "--approve"@ {
        review_args_from(args, i + 1, ReviewModel { decision: Some("approve"@), ..so_far })
    } else if args[i] == "--reject"@ {
        review_args_from(args, i + 1, ReviewModel { decision: Some("reject"@), ..so_far })
    } else if args[i] == "--file"@ {
        if i + 1 >= args.len() {
            Err("--file requires a path"@)
        } else {
            review_args_from(args, i + 2, ReviewModel { file: Some(args[i + 1]), ..so_far })
        }
    } else if args[i] == "--line"@ {
        if i + 1 >= args.len() {
            Err("--line requires a number"@)
        } else {
            review_args_from(args, i + 2, ReviewModel { line: Some(args[i + 1]), ..so_far })
        }
    } else if args[i] == "--commit"@ {
        if i + 1 >= args.len() {
            Err("--commit requires a hash"@)
        } else {
            review_args_from(args, i + 2, ReviewModel { commit: Some(args[i + 1]), ..so_far })
        }
    } else if args[i].len() > 0 && args[i][0] == '-' {
        Err("unknown option '"@ + args[i] + "'"@)
    } else {
        review_args_from(args, i + 1, so_far)
    }
}

/// What the arguments of `pr review` ask for, or what is wrong with them.
pub open spec fn review_of(args: Seq<Seq<char>>) -> Result<(int, ReviewModel), Seq<char>> {
    match entity_id_of(arg_at(args, 0)) {
        Err(e) => Err(e),
        Ok(id) => match review_args_from(
            args,
            1,
            ReviewModel { decision: None, file: None, line: None, commit: None },
        ) {
            Err(e) => Err(e),
            Ok(m) => if m.decision is None {
                Err("usage: git forge pr review <n> --approve|--reject"@)
            } else {
                Ok((id, m))
            },
        },
    }
}

impl View for Review {
    type V = (int, ReviewModel);

    open spec fn view(&self) -> (int, ReviewModel) {
        (
            self.id as int,
            ReviewModel {
                decision: Some(decision_name(self.approve)),
                file: event::opt_text(self.file),
                line: event::opt_text(self.line),
                commit: event::opt_text(self.commit),
            },
        )
    }
}

/// The name of a decision, where there is one.
spec fn opt_decision(d: Option<bool>) -> Option<Seq<char>> {
    match d {
        Some(b) => Some(decision_name(b)),
        None => None,
    }
}

/// Reads the arguments of `pr review <n> --approve|--reject [--file <f> --line <l>
/// --commit <c>]`. The last decision counts.
pub fn parse_review(args: &[String]) -> (r: Result<Review, String>)
    ensures
        match (r, review_of(event::texts(args@))) {
            (Ok(n), Ok(m)) => n@ == m,
            (Err(e), Err(m)) => e@ == m,
            _ => false,
        },
{
    let ghost all = event::texts(args@);
    let id = match id_at(args, 0) {
        Err(e) => {
            return Err(e);
        },
        Ok(id) => id,
    };
    let ghost none = ReviewModel { decision: None, file: None, line: None, commit: None };
    let ghost goal = review_args_from(all, 1, none);
    let mut decision: Option<bool> = None;
    let mut file: Option<String> = None;
    let mut line: Option<String> = None;
    let mut commit: Option<String> = None;
    let mut i: usize = 1;
    while i < args.len()
        invariant
            all == event::texts(args@),
            goal == review_args_from(
                all,
                1,
                ReviewModel { decision: None, file: None, line: None, commit: None },
            ),
            number_agrees(Ok(id), entity_id_of(arg_at(all, 0))),
            1 <= i,
            goal == review_args_from(
                all,
                i as int,
                ReviewModel {
                    decision: opt_decision(decision),
                    file: event::opt_text(file),
                    line: event::opt_text(line),
                    commit: event::opt_text(commit),
                },
            ),
        decreases args@.len() - i,
    {
        assert(all[i as int] == args@[i as int]@);
        if arg_is(args, i, "--approve") {
            decision = Some(true);
            i = i + 1;
        } else if arg_is(args, i, "--reject") {
            decision = Some(false);
            i = i + 1;
        } else if arg_is(args, i, "--file") {
            if i + 1 >= args.len() {
                return Err("--file requires a path".to_owned());
            }
            assert(all[i + 1] == args@[i + 1]@);
            file = Some(args[i + 1].clone());
            i = i + 2;
        } else if arg_is(args, i, "--line") {
            if i + 1 >= args.len() {
                return Err("--line requires a number".to_owned());
            }
            assert(all[i + 1] == args@[i + 1]@);
            line = Some(args[i + 1].clone());
            i = i + 2;
        } else if arg_is(args, i, "--commit") {
            if i + 1 >= args.len() {
                return Err("--commit requires a hash".to_owned());
            }
            assert(all[i + 1] == args@[i + 1]@);
            commit = Some(args[i + 1].clone());
            i = i + 2;
        } else if is_option(args[i].as_str()) {
            return Err(unknown_option(args[i].as_str()));
        } else {
            i = i + 1;
        }
    }
    match decision {
        None => Err("usage: git forge pr review <n> --approve|--reject".to_owned()),
        Some(approve) => Ok(Review { id, approve, file, line, commit }),
    }
}

/// What is told of an inline review without an anchor.
pub open spec fn no_anchor() -> Seq<char> {
    "inline review requires --commit <hash> to anchor the comment (FR-005); add --commit or drop --file/--line"@
}

/// Does an inline review name the commit that it is about? A file or a line alone
/// refers to nothing that stays.
pub fn check_anchor(review: &Review) -> (r: Result<(), String>)
    ensures
        match r {
            Ok(_) => (review.file is None && review.line is None) || review.commit is Some,
            Err(e) => (review.file is Some || review.line is Some) && review.commit is None && e@
                == no_anchor(),
        },
{
    if (review.file.is_some() || review.line.is_some()) && review.commit.is_none() {
        Err(
            "inline review requires --commit <hash> to anchor the comment (FR-005); add --commit or drop --file/--line".to_owned(),
        )
    } else {
        Ok(())
    }
}

} // verus!
