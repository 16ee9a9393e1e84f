//! The commands: what a whole command line asks for.

use crate::cli;
use crate::cli::{NewIssue, NewPr, Review};
use crate::event;
use crate::merge;
use crate::merge::MergeCommand;
use crate::text;
use vstd::prelude::*;

verus! {

/// What a result of reading a number says.
pub open spec fn id_view(r: Result<u64, String>) -> Result<int, Seq<char>> {
    match r {
        Ok(n) => Ok(n as int),
        Err(e) => Err(e@),
    }
}

// ---------------------------------------------------------------------------
// Issues

/// What a command line of `issue` asks for, as mathematics sees it.
#[verifier::ext_equal]
pub enum IssueRequest {
    Print(Seq<char>),
    New(cli::NewIssueModel),
    List,
    Show(Result<int, Seq<char>>),
    Comment(int, Seq<char>),
    SetState(bool, int),
}

/// What a command line of `issue` asks for.
#[derive(Debug, PartialEq, Eq)]
pub enum IssueCommand {
    /// Print a text.
    Print(String),
    /// Create an issue.
    New(NewIssue),
    /// List the issues.
    List,
    /// Show an issue. An error of the number is told once the repository is open.
    Show(Result<u64, String>),
    /// Comment on an issue.
    Comment { id: u64, body: String },
    /// Close an issue, or reopen it.
    SetState { close: bool, id: u64 },
}

impl View for IssueCommand {
    type V = IssueRequest;

    open spec fn view(&self) -> IssueRequest {
        match self {
            IssueCommand::Print(s) => IssueRequest::Print(s@),
            IssueCommand::New(n) => IssueRequest::New(n@),
            IssueCommand::List => IssueRequest::List,
            IssueCommand::Show(r) => IssueRequest::Show(id_view(*r)),
            IssueCommand::Comment { id, body } => IssueRequest::Comment(*id as int, body@),
            IssueCommand::SetState { close, id } => IssueRequest::SetState(*close, *id as int),
        }
    }
}

/// The help of `issue`.
pub open spec fn issue_help_text() -> Seq<char> {
    "usage: git forge issue <new|list|show|comment|close|reopen> ...\n\nsubcommands:\n  new <title> [description] [--label <x>]...\n  list\n  show <n>\n  comment <n> <body>\n  close <n>\n  reopen <n>"@
}

/// The usage of a subcommand of `issue`.
pub open spec fn issue_sub_usage_text(sub: Seq<char>) -> Option<Seq<char>> {
    if sub == "new"@ {
        Some("usage: git forge issue new <title> [description] [--label <x>]..."@)
    } else if sub == "list"@ {
        Some("usage: git forge issue list"@)
    } else if sub == "show"@ {
        Some("usage: git forge issue show <n>"@)
    } else if sub == "comment"@ {
        Some("usage: git forge issue comment <n> <body>"@)
    } else if sub == "close"@ {
        Some("usage: git forge issue close <n>"@)
    } else if sub == "reopen"@ {
        Some("usage: git forge issue reopen <n>"@)
    } else {
        None
    }
}

/// Is `s` a word for help?
pub open spec fn is_help(s: Seq<char>) -> bool {
    s == "help"@ || s == "-h"@ || s == "--help"@
}

/// What the arguments behind `issue` ask for, or what is wrong with them. Help on a
/// subcommand needs no repository.
pub open spec fn issue_request(argv: Seq<Seq<char>>) -> Result<IssueRequest, Seq<char>> {
    let sub = cli::arg_at(argv, 0);
    let args = if argv.len() > 0 {
        argv.skip(1)
    } else {
        argv
    };
    if cli::help_asked(argv, 1) && issue_sub_usage_text(sub) is Some {
        Ok(IssueRequest::Print(issue_sub_usage_text(sub).unwrap()))
    } else if sub == "new"@ {
        match cli::new_issue_of(args) {
            Ok(n) => Ok(IssueRequest::New(n)),
            Err(e) => Err(e),
        }
    } else if sub == "list"@ {
        Ok(IssueRequest::List)
    } else if sub == "show"@ {
        Ok(IssueRequest::Show(cli::entity_id_of(cli::arg_at(args, 0))))
    } else if sub == "comment"@ {
        match cli::comment_of(args, "usage: git forge issue comment <n> <body>"@) {
            Ok((id, body)) => Ok(IssueRequest::Comment(id, body)),
            Err(e) => Err(e),
        }
    } else if sub == "close"@ || sub == "reopen"@ {
        match cli::entity_id_of(cli::arg_at(args, 0)) {
            Ok(id) => Ok(IssueRequest::SetState(sub == "close"@, id)),
            Err(e) => Err(e),
        }
    } else if is_help(sub) || sub.len() == 0 {
        Ok(IssueRequest::Print(issue_help_text()))
    } else {
        Err("unknown issue subcommand '"@ + sub + "'"@)
    }
}

/// The first of the arguments; empty where there is none.
fn first(argv: &[String]) -> (r: &str)
    ensures
        r@ == cli::arg_at(event::texts(argv@), 0),
{
    if argv.len() > 0 {
        argv[0].as_str()
    } else {
        proof {
            reveal_strlit("");
            assert(""@ =~= seq![]);
        }
        ""
    }
}

/// The arguments behind the first.
fn rest(argv: &[String]) -> (r: &[String])
    ensures
        event::texts(r@) == (if argv@.len() > 0 {
            event::texts(argv@).skip(1)
        } else {
            event::texts(argv@)
        }),
{
    if argv.len() > 0 {
        let r = vstd::slice::slice_subrange(argv, 1, argv.len());
        assert(event::texts(r@) =~= event::texts(argv@).skip(1));
        r
    } else {
        argv
    }
}

/// Is `s` a word for help?
fn is_help_word(s: &str) -> (r: bool)
    ensures
        r == is_help(s@),
{
    text::same(s, "help") || text::same(s, "-h") || text::same(s, "--help")
}

/// The usage of a subcommand of `issue`.
fn issue_sub_usage(sub: &str) -> (r: Option<&'static str>)
    ensures
        match r {
            Some(u) => issue_sub_usage_text(sub@) == Some(u@),
            None => issue_sub_usage_text(sub@) is None,
        },
{
    if text::same(sub, "new") {
        Some("usage: git forge issue new <title> [description] [--label <x>]...")
    } else if text::same(sub, "list") {
        Some("usage: git forge issue list")
    } else if text::same(sub, "show") {
        Some("usage: git forge issue show <n>")
    } else if text::same(sub, "comment") {
        Some("usage: git forge issue comment <n> <body>")
    } else if text::same(sub, "close") {
        Some("usage: git forge issue close <n>")
    } else if text::same(sub, "reopen") {
        Some("usage: git forge issue reopen <n>")
    } else {
        None
    }
}

/// What is told of an unknown word.
fn unknown(before: &str, word: &str) -> (r: String)
    ensures
        r@ == before@ + word@ + "'"@,
{
    let mut e = before.to_owned();
    e.append(word);
    e.append("'");
    e
}

/// What the arguments behind `issue` ask for.
pub fn run_issue(argv: &[String]) -> (r: Result<IssueCommand, String>)
    ensures
        match (r, issue_request(event::texts(argv@))) {
            (Ok(c), Ok(m)) => c@ == m,
            (Err(e), Err(m)) => e@ == m,
            _ => false,
        },
{
    let sub = first(argv);
    let args = rest(argv);
    if cli::help_requested(argv, 1) {
        match issue_sub_usage(sub) {
            Some(u) => {
                return Ok(IssueCommand::Print(u.to_owned()));
            },
            None => {},
        }
    }
    if text::same(sub, "new") {
        match cli::parse_new_issue(args) {
            Ok(n) => Ok(IssueCommand::New(n)),
            Err(e) => Err(e),
        }
    } else if text::same(sub, "list") {
        Ok(IssueCommand::List)
    } else if text::same(sub, "show") {
        Ok(IssueCommand::Show(cli::parse_entity_id(first(args))))
    } else if text::same(sub, "comment") {
        match cli::parse_comment(args, "usage: git forge issue comment <n> <body>") {
            Ok((id, body)) => Ok(IssueCommand::Comment { id, body }),
            Err(e) => Err(e),
        }
    } else if text::same(sub, "close") || text::same(sub, "reopen") {
        match cli::parse_entity_id(first(args)) {
            Ok(id) => Ok(IssueCommand::SetState { close: text::same(sub, "close"), id }),
            Err(e) => Err(e),
        }
    } else if is_help_word(sub) || sub.unicode_len() == 0 {
        Ok(
            IssueCommand::Print(
                "usage: git forge issue <new|list|show|comment|close|reopen> ...\n\nsubcommands:\n  new <title> [description] [--label <x>]...\n  list\n  show <n>\n  comment <n> <body>\n  close <n>\n  reopen <n>".to_owned(),
            ),
        )
    } else {
        Err(unknown("unknown issue subcommand '", sub))
    }
}

// ---------------------------------------------------------------------------
// Pull requests

/// What a command line of `pr` asks for, as mathematics sees it.
#[verifier::ext_equal]
pub enum PrRequest {
    Print(Seq<char>),
    Create(cli::NewPrModel),
    List,
    Show(Result<int, Seq<char>>),
    Comment(int, Seq<char>),
    Review((int, cli::ReviewModel)),
    Diff(Result<int, Seq<char>>),
    Merge(Result<merge::MergeRequest, Seq<char>>),
}

/// What a command line of `pr` asks for.
#[derive(Debug, PartialEq, Eq)]
pub enum PrCommand {
    /// Print a text.
    Print(String),
    /// Create a pull request.
    Create(NewPr),
    /// List the pull requests.
    List,
    /// Show a pull request. An error of the number is told once the repository is open.
    Show(Result<u64, String>),
    /// Comment on a pull request.
    Comment { id: u64, body: String },
    /// Review a pull request.
    Review(Review),
    /// Show the diff of a pull request. An error is told once the repository is open.
    Diff(Result<u64, String>),
    /// Merge a pull request. An error is told once the repository is open.
    Merge(Result<MergeCommand, String>),
}

impl View for PrCommand {
    type V = PrRequest;

    open spec fn view(&self) -> PrRequest {
        match self {
            PrCommand::Print(s) => PrRequest::Print(s@),
            PrCommand::Create(n) => PrRequest::Create(n@),
            PrCommand::List => PrRequest::List,
            PrCommand::Show(r) => PrRequest::Show(id_view(*r)),
            PrCommand::Comment { id, body } => PrRequest::Comment(*id as int, body@),
            PrCommand::Review(v) => PrRequest::Review(v@),
            PrCommand::Diff(r) => PrRequest::Diff(id_view(*r)),
            PrCommand::Merge(r) => PrRequest::Merge(
                match r {
                    Ok(c) => Ok(c@),
                    Err(e) => Err(e@),
                },
            ),
        }
    }
}

/// The help of `pr`.
pub open spec fn pr_help_text() -> Seq<char> {
    "usage: git forge pr <create|list|show|comment|review|diff|merge> ...\n\nsubcommands:\n  create --source <branch> --base <branch> <title> [--body <text>] [--label <x>]...\n  list\n  show <n>\n  comment <n> <body>\n  review <n> --approve|--reject [--file <f> --line <l> --commit <c>]\n  diff <n>\n  merge [<n>] [--squash|--rebase]"@
}

/// What the arguments behind `pr` ask for, or what is wrong with them.
pub open spec fn pr_request(argv: Seq<Seq<char>>) -> Result<PrRequest, Seq<char>> {
    let sub = cli::arg_at(argv, 0);
    let args = if argv.len() > 0 {
        argv.skip(1)
    } else {
        argv
    };
    if sub == "create"@ {
        match cli::new_pr_of(args) {
            Ok(n) => Ok(PrRequest::Create(n)),
            Err(e) => Err(e),
        }
    } else if sub == "list"@ {
        Ok(PrRequest::List)
    } else if sub == "show"@ {
        Ok(PrRequest::Show(cli::entity_id_of(cli::arg_at(args, 0))))
    } else if sub == "comment"@ {
        match cli::comment_of(args, "usage: git forge pr comment <n> <body>"@) {
            Ok((id, body)) => Ok(PrRequest::Comment(id, body)),
            Err(e) => Err(e),
        }
    } else if sub == "review"@ {
        match cli::review_of(args) {
            Ok(v) => Ok(PrRequest::Review(v)),
            Err(e) => Err(e),
        }
    } else if sub == "diff"@ {
        Ok(PrRequest::Diff(cli::entity_id_of(cli::arg_at(args, 0))))
    } else if sub == "merge"@ {
        Ok(PrRequest::Merge(merge::merge_request(args)))
    } else if is_help(sub) || sub.len() == 0 {
        Ok(PrRequest::Print(pr_help_text()))
    } else {
        Err("unknown pr subcommand '"@ + sub + "'"@)
    }
}

/// What the arguments behind `pr` ask for.
pub fn run_pr(argv: &[String]) -> (r: Result<PrCommand, String>)
    ensures
        match (r, pr_request(event::texts(argv@))) {
            (Ok(c), Ok(m)) => c@ == m,
            (Err(e), Err(m)) => e@ == m,
            _ => false,
        },
{
    let sub = first(argv);
    let args = rest(argv);
    if text::same(sub, "create") {
        match cli::parse_new_pr(args) {
            Ok(n) => Ok(PrCommand::Create(n)),
            Err(e) => Err(e),
        }
    } else if text::same(sub, "list") {
        Ok(PrCommand::List)
    } else if text::same(sub, "show") {
        Ok(PrCommand::Show(cli::parse_entity_id(first(args))))
    } else if text::same(sub, "comment") {
        match cli::parse_comment(args, "usage: git forge pr comment <n> <body>") {
            Ok((id, body)) => Ok(PrCommand::Comment { id, body }),
            Err(e) => Err(e),
        }
    } else if text::same(sub, "review") {
        match cli::parse_review(args) {
            Ok(v) => Ok(PrCommand::Review(v)),
            Err(e) => Err(e),
        }
    } else if text::same(sub, "diff") {
        Ok(PrCommand::Diff(cli::parse_entity_id(first(args))))
    } else if text::same(sub, "merge") {
        Ok(PrCommand::Merge(merge::parse_merge(args)))
    } else if is_help_word(sub) || sub.unicode_len() == 0 {
        Ok(
            PrCommand::Print(
                "usage: git forge pr <create|list|show|comment|review|diff|merge> ...\n\nsubcommands:\n  create --source <branch> --base <branch> <title> [--body <text>] [--label <x>]...\n  list\n  show <n>\n  comment <n> <body>\n  review <n> --approve|--reject [--file <f> --line <l> --commit <c>]\n  diff <n>\n  merge [<n>] [--squash|--rebase]".to_owned(),
            ),
        )
    } else {
        Err(unknown("unknown pr subcommand '", sub))
    }
}

// ---------------------------------------------------------------------------
// CI

/// What a command line of `ci` asks for, as mathematics sees it.
#[verifier::ext_equal]
pub enum CiRequest {
    Print(Seq<char>),
    Run(int),
}

/// What a command line of `ci` asks for.
#[derive(Debug, PartialEq, Eq)]
pub enum CiCommand {
    /// Print a text.
    Print(String),
    /// Run the CI plan of a pull request.
    Run { id: u64 },
}

impl View for CiCommand {
    type V = CiRequest;

    open spec fn view(&self) -> CiRequest {
        match self {
            CiCommand::Print(s) => CiRequest::Print(s@),
            CiCommand::Run { id } => CiRequest::Run(*id as int),
        }
    }
}

/// The help of `ci`.
pub open spec fn ci_help_text() -> Seq<char> {
    "usage: git forge ci <run> ...\n\nsubcommands:\n  run <n>\n  run `git forge ci run <pr>` to execute the repo CI plan and record a CI Check"@
}

/// What the arguments behind `ci` ask for, or what is wrong with them.
pub open spec fn ci_request(argv: Seq<Seq<char>>) -> Result<CiRequest, Seq<char>> {
    let sub = cli::arg_at(argv, 0);
    if sub == "run"@ {
        match cli::entity_id_of(cli::arg_at(argv, 1)) {
            Ok(id) => Ok(CiRequest::Run(id)),
            Err(e) => Err(e),
        }
    } else if is_help(sub) || sub.len() == 0 {
        Ok(CiRequest::Print(ci_help_text()))
    } else {
        Err("unknown ci subcommand '"@ + sub + "'"@)
    }
}

/// What the arguments behind `ci` ask for.
pub fn run_ci(argv: &[String]) -> (r: Result<CiCommand, String>)
    ensures
        match (r, ci_request(event::texts(argv@))) {
            (Ok(c), Ok(m)) => c@ == m,
            (Err(e), Err(m)) => e@ == m,
            _ => false,
        },
{
    let sub = first(argv);
    if text::same(sub, "run") {
        let args = rest(argv);
        match cli::parse_entity_id(first(args)) {
            Ok(id) => Ok(CiCommand::Run { id }),
            Err(e) => Err(e),
        }
    } else if is_help_word(sub) || sub.unicode_len() == 0 {
        Ok(
            CiCommand::Print(
                "usage: git forge ci <run> ...\n\nsubcommands:\n  run <n>\n  run `git forge ci run <pr>` to execute the repo CI plan and record a CI Check".to_owned(),
            ),
        )
    } else {
        Err(unknown("unknown ci subcommand '", sub))
    }
}

// ---------------------------------------------------------------------------
// The whole command line

/// What a command line asks for, as mathematics sees it.
#[verifier::ext_equal]
pub enum ForgeRequest {
    Print(Seq<char>),
    Issue(IssueRequest),
    Pr(PrRequest),
    Ci(CiRequest),
}

/// What a command line asks for.
#[derive(Debug, PartialEq, Eq)]
pub enum ForgeCommand {
    Print(String),
    Issue(IssueCommand),
    Pr(PrCommand),
    Ci(CiCommand),
}

impl View for ForgeCommand {
    type V = ForgeRequest;

    open spec fn view(&self) -> ForgeRequest {
        match self {
            ForgeCommand::Print(s) => ForgeRequest::Print(s@),
            ForgeCommand::Issue(c) => ForgeRequest::Issue(c@),
            ForgeCommand::Pr(c) => ForgeRequest::Pr(c@),
            ForgeCommand::Ci(c) => ForgeRequest::Ci(c@),
        }
    }
}

/// The help of the program.
pub open spec fn top_help_text() -> Seq<char> {
    "usage: git forge <issue|pr> ...\n\nsubcommands:\n  issue  new|list|show|comment|close|reopen\n  pr     create|list|show|comment|review|diff|merge\n  run `git forge issue --help` / `git forge pr --help` for per-subcommand usage"@
}

/// What the arguments of one of the areas ask for, where `area` names one.
pub open spec fn area_request(area: Seq<char>, argv: Seq<Seq<char>>) -> Option<
    Result<ForgeRequest, Seq<char>>,
> {
    if area == "issue"@ {
        Some(
            match issue_request(argv) {
                Ok(r) => Ok(ForgeRequest::Issue(r)),
                Err(e) => Err(e),
            },
        )
    } else if area == "pr"@ {
        Some(
            match pr_request(argv) {
                Ok(r) => Ok(ForgeRequest::Pr(r)),
                Err(e) => Err(e),
            },
        )
    } else if area == "ci"@ {
        Some(
            match ci_request(argv) {
                Ok(r) => Ok(ForgeRequest::Ci(r)),
                Err(e) => Err(e),
            },
        )
    } else {
        None
    }
}

/// What the arguments of the program ask for, or what is wrong with them. A leading
/// `forge` counts for nothing. Without arguments the program prints its help.
pub open spec fn forge_request(argv: Seq<Seq<char>>) -> Result<ForgeRequest, Seq<char>> {
    let behind = argv.len() > 0 && argv[0] == "forge"@;
    let args = if behind {
        argv.skip(1)
    } else {
        argv
    };
    if args.len() == 0 || is_help(args[0]) {
        Ok(ForgeRequest::Print(top_help_text()))
    } else {
        match area_request(args[0], args.skip(1)) {
            Some(r) => r,
            None => if behind {
                Err("unknown forge subcommand '"@ + args[0] + "'"@)
            } else {
                Err("unknown command '"@ + args[0] + "'"@)
            },
        }
    }
}

/// Without arguments the program says the same as when it is asked for help.
pub proof fn law_bare_command_is_help()
    ensures
        forge_request(seq![]) == forge_request(seq!["--help"@]),
        forge_request(seq!["forge"@]) == forge_request(seq!["forge"@, "--help"@]),
{
    reveal_strlit("forge");
    reveal_strlit("--help");
    assert("forge"@.len() == 5 && "--help"@.len() == 6);
    assert(seq!["forge"@].skip(1) =~= seq![]);
    assert(seq!["forge"@, "--help"@].skip(1) =~= seq!["--help"@]);
}

/// What the arguments of one of the areas ask for.
fn run_area(area: &str, argv: &[String]) -> (r: Option<Result<ForgeCommand, String>>)
    ensures
        match (r, area_request(area@, event::texts(argv@))) {
            (Some(Ok(c)), Some(Ok(m))) => c@ == m,
            (Some(Err(e)), Some(Err(m))) => e@ == m,
            (None, None) => true,
            _ => false,
        },
{
    if text::same(area, "issue") {
        Some(
            match run_issue(argv) {
                Ok(c) => Ok(ForgeCommand::Issue(c)),
                Err(e) => Err(e),
            },
        )
    } else if text::same(area, "pr") {
        Some(
            match run_pr(argv) {
                Ok(c) => Ok(ForgeCommand::Pr(c)),
                Err(e) => Err(e),
            },
        )
    } else if text::same(area, "ci") {
        Some(
            match run_ci(argv) {
                Ok(c) => Ok(ForgeCommand::Ci(c)),
                Err(e) => Err(e),
            },
        )
    } else {
        None
    }
}

/// What the arguments of the program ask for.
pub fn run_forge(argv: &[String]) -> (r: Result<ForgeCommand, String>)
    ensures
        match (r, forge_request(event::texts(argv@))) {
            (Ok(c), Ok(m)) => c@ == m,
            (Err(e), Err(m)) => e@ == m,
            _ => false,
        },
{
    let behind = argv.len() > 0 && text::same(argv[0].as_str(), "forge");
    assert(argv@.len() > 0 ==> event::texts(argv@)[0] == argv@[0]@);
    let args = if behind {
        rest(argv)
    } else {
        argv
    };
    assert(args@.len() == event::texts(args@).len());
    if args.len() == 0 || is_help_word(args[0].as_str()) {
        return Ok(
            ForgeCommand::Print(
                "usage: git forge <issue|pr> ...\n\nsubcommands:\n  issue  new|list|show|comment|close|reopen\n  pr     create|list|show|comment|review|diff|merge\n  run `git forge issue --help` / `git forge pr --help` for per-subcommand usage".to_owned(),
            ),
        );
    }
    let area = args[0].as_str();
    match run_area(area, rest(args)) {
        Some(r) => r,
        None => if behind {
            Err(unknown("unknown forge subcommand '", area))
        } else {
            Err(unknown("unknown command '", area))
        },
    }
}

/// The last part of a path: what stands behind the last slash.
pub open spec fn base_name(path: Seq<char>) -> Seq<char>
    decreases path.len(),
{
    if path.len() == 0 || path.last() == '/' {
        seq![]
    } else {
        base_name(path.drop_last()).push(path.last())
    }
}

/// Which area the program stands for under the name that it was called by.
#[derive(Debug, Clone, Copy, PartialEq, Eq, Structural)]
pub enum CalledAs {
    Forge,
    Issue,
    Pr,
}

/// Which area the program stands for under the name that it was called by.
pub open spec fn called_as_of(program: Seq<char>) -> CalledAs {
    if base_name(program) == "git-issue"@ {
        CalledAs::Issue
    } else if base_name(program) == "git-pr"@ {
        CalledAs::Pr
    } else {
        CalledAs::Forge
    }
}

/// Which area the program stands for under the name that it was called by.
pub fn called_as(program: &str) -> (r: CalledAs)
    ensures
        r == called_as_of(program@),
{
    let v = text::chars_of(program);
    let mut from: usize = v.len();
    let n = v.len();
    assert(v@.take(from as int) =~= v@);
    assert(base_name(v@) + v@.subrange(from as int, n as int) =~= base_name(v@));
    while from > 0 && v[from - 1] != '/'
        invariant
            from <= n == v@.len(),
            base_name(v@) == base_name(v@.take(from as int)) + v@.subrange(from as int, n as int),
        decreases from,
    {
        proof {
            let t = v@.take(from as int);
            assert(t.drop_last() =~= v@.take(from - 1));
            assert(t.last() == v@[from - 1]);
            assert(base_name(v@) =~= base_name(v@.take(from - 1)) + v@.subrange(
                from - 1,
                n as int,
            ));
        }
        from = from - 1;
    }
    assert(v@.take(from as int).len() > 0 ==> v@.take(from as int).last() == v@[from - 1]);
    assert(base_name(v@) =~= v@.subrange(from as int, n as int));
    let name = text::part(v.as_slice(), from, n);
    if text::is_text(name, "git-issue") {
        CalledAs::Issue
    } else if text::is_text(name, "git-pr") {
        CalledAs::Pr
    } else {
        CalledAs::Forge
    }
}

/// What the program is asked to do under the name that it was called by.
pub open spec fn program_request(program: Seq<char>, argv: Seq<Seq<char>>) -> Result<
    ForgeRequest,
    Seq<char>,
> {
    match called_as_of(program) {
        CalledAs::Forge => forge_request(argv),
        CalledAs::Issue => match issue_request(argv) {
            Ok(r) => Ok(ForgeRequest::Issue(r)),
            Err(e) => Err(e),
        },
        CalledAs::Pr => match pr_request(argv) {
            Ok(r) => Ok(ForgeRequest::Pr(r)),
            Err(e) => Err(e),
        },
    }
}

/// What the program is asked to do under the name that it was called by.
pub fn run_program(program: &str, argv: &[String]) -> (r: Result<ForgeCommand, String>)
    ensures
        match (r, program_request(program@, event::texts(argv@))) {
            (Ok(c), Ok(m)) => c@ == m,
            (Err(e), Err(m)) => e@ == m,
            _ => false,
        },
{
    match called_as(program) {
        CalledAs::Forge => run_forge(argv),
        CalledAs::Issue => match run_issue(argv) {
            Ok(c) => Ok(ForgeCommand::Issue(c)),
            Err(e) => Err(e),
        },
        CalledAs::Pr => match run_pr(argv) {
            Ok(c) => Ok(ForgeCommand::Pr(c)),
            Err(e) => Err(e),
        },
    }
}

} // verus!
