//! What a whole command line asks for.

use crate::cli;
use crate::cli_laws;
use crate::commands;
use crate::event;
use crate::merge;
use crate::messages;
use crate::passages;
use crate::render;
use crate::text;
use vstd::prelude::*;

verus! {

proof fn lemma_words()
    ensures
        "new"@.len() == 3 && "new"@[0] == 'n',
        "run"@.len() == 3 && "run"@[0] == 'r',
        "list"@.len() == 4 && "list"@[0] == 'l',
        "show"@.len() == 4 && "show"@[0] == 's',
        "diff"@.len() == 4 && "diff"@[0] == 'd',
        "help"@.len() == 4 && "help"@[0] == 'h',
        "close"@.len() == 5 && "close"@[0] == 'c',
        "merge"@.len() == 5 && "merge"@[0] == 'm',
        "issue"@.len() == 5 && "issue"@[0] == 'i',
        "forge"@.len() == 5 && "forge"@[0] == 'f',
        "reopen"@.len() == 6 && "reopen"@[0] == 'r' && "reopen"@[2] == 'o',
        "review"@.len() == 6 && "review"@[0] == 'r' && "review"@[2] == 'v',
        "create"@.len() == 6 && "create"@[0] == 'c',
        "--help"@.len() == 6 && "--help"@[0] == '-',
        "comment"@.len() == 7,
        "-h"@.len() == 2 && "-h"@[0] == '-',
        "pr"@.len() == 2 && "pr"@[0] == 'p',
        "ci"@.len() == 2 && "ci"@[0] == 'c',
{
    reveal_strlit("new");
    reveal_strlit("run");
    reveal_strlit("list");
    reveal_strlit("show");
    reveal_strlit("diff");
    reveal_strlit("help");
    reveal_strlit("close");
    reveal_strlit("merge");
    reveal_strlit("issue");
    reveal_strlit("forge");
    reveal_strlit("reopen");
    reveal_strlit("review");
    reveal_strlit("create");
    reveal_strlit("--help");
    reveal_strlit("comment");
    reveal_strlit("-h");
    reveal_strlit("pr");
    reveal_strlit("ci");
}

// ---------------------------------------------------------------------------
// Issues

/// Each command on issues asks for what it is named after, on the number that stands
/// behind it.
pub proof fn law_issue_commands(n: nat, rest: Seq<Seq<char>>)
    requires
        1 <= n <= u64::MAX,
        !cli::help_asked(rest, 0),
    ensures
        ({
            let d = text::decimal(n);
            let id = n as int;
            &&& commands::issue_request(seq!["list"@] + rest) == Ok::<
                commands::IssueRequest,
                Seq<char>,
            >(commands::IssueRequest::List)
            &&& commands::issue_request(seq!["show"@, d] + rest) == Ok::<
                commands::IssueRequest,
                Seq<char>,
            >(commands::IssueRequest::Show(Ok(id)))
            &&& commands::issue_request(seq!["close"@, d] + rest) == Ok::<
                commands::IssueRequest,
                Seq<char>,
            >(commands::IssueRequest::SetState(true, id))
            &&& commands::issue_request(seq!["reopen"@, d] + rest) == Ok::<
                commands::IssueRequest,
                Seq<char>,
            >(commands::IssueRequest::SetState(false, id))
        }),
{
    lemma_words();
    let d = text::decimal(n);
    cli_laws::law_number_reads_back(n);
    text::law_decimal_reads_back(n);
    assert(text::is_digit(d[0]));
    lemma_no_help(seq!["list"@], rest);
    assert((seq!["list"@] + rest)[0] == "list"@);
    lemma_numbered("show"@, d, rest);
    lemma_numbered("close"@, d, rest);
    lemma_numbered("reopen"@, d, rest);
}

proof fn lemma_no_help(head: Seq<Seq<char>>, rest: Seq<Seq<char>>)
    requires
        head.len() == 1,
        !cli::help_asked(rest, 0),
    ensures
        !cli::help_asked(head + rest, 1),
{
    cli_laws::law_help_is_asked(rest, 0);
    cli_laws::law_help_is_asked(head + rest, 1);
    let all = head + rest;
    if cli::help_asked(all, 1) {
        let k = choose|k: int|
            #![trigger all[k]]
            1 <= k < all.len() && (all[k] == "-h"@ || all[k] == "--help"@) && forall|j: int|
                1 <= j < k ==> #[trigger] all[j] != "--"@;
        assert(all[k] == rest[k - 1]);
        assert forall|j: int| 0 <= j < k - 1 implies #[trigger] rest[j] != "--"@ by {
            assert(all[j + 1] == rest[j]);
        }
    }
}

proof fn lemma_numbered(sub: Seq<char>, d: Seq<char>, rest: Seq<Seq<char>>)
    requires
        d.len() > 0,
        text::is_digit(d[0]),
        !cli::help_asked(rest, 0),
    ensures
        ({
            let argv = seq![sub, d] + rest;
            &&& !cli::help_asked(argv, 1)
            &&& argv.len() > 0
            &&& cli::arg_at(argv, 0) == sub
            &&& cli::arg_at(argv.skip(1), 0) == d
        }),
{
    lemma_words();
    let tail = seq![d] + rest;
    let argv = seq![sub, d] + rest;
    assert(argv =~= seq![sub] + tail);
    assert(argv.skip(1) =~= tail);
    assert(argv[0] == sub);
    assert(tail[0] == d);
    reveal_strlit("--");
    assert("--"@[0] == '-');
    lemma_no_help(seq![d], rest);
    assert(seq![d] + rest =~= tail);
    assert(!cli::help_asked(tail, 0));
    lemma_no_help(seq![sub], tail);
}

/// A new issue and a comment are read from what stands behind the word.
pub proof fn law_issue_arguments(args: Seq<Seq<char>>)
    requires
        !cli::help_asked(args, 0),
    ensures
        match (commands::issue_request(seq!["new"@] + args), cli::new_issue_of(args)) {
            (Ok(r), Ok(m)) => r == commands::IssueRequest::New(m),
            (Err(e), Err(f)) => e == f,
            _ => false,
        },
        match (
            commands::issue_request(seq!["comment"@] + args),
            cli::comment_of(args, "usage: git forge issue comment <n> <body>"@),
        ) {
            (Ok(r), Ok((id, body))) => r == commands::IssueRequest::Comment(id, body),
            (Err(e), Err(f)) => e == f,
            _ => false,
        },
{
    lemma_words();
    lemma_no_help(seq!["new"@], args);
    lemma_no_help(seq!["comment"@], args);
    assert((seq!["new"@] + args).skip(1) =~= args);
    assert((seq!["comment"@] + args).skip(1) =~= args);
    assert((seq!["new"@] + args)[0] == "new"@);
    assert((seq!["comment"@] + args)[0] == "comment"@);
}

/// Is `sub` a command on issues?
pub open spec fn is_issue_command(sub: Seq<char>) -> bool {
    sub == "new"@ || sub == "list"@ || sub == "show"@ || sub == "comment"@ || sub == "close"@ || sub
        == "reopen"@
}

/// Help on a command on issues is its usage, and needs no further argument to be right; a
/// word that is no command is refused by its name.
pub proof fn law_issue_help(sub: Seq<char>, args: Seq<Seq<char>>)
    ensures
        ({
            let r = commands::issue_request(seq![sub] + args);
            &&& is_issue_command(sub) && cli::help_asked(args, 0) ==> r is Ok && r->Ok_0 is Print
                && text::starts_with(r->Ok_0->Print_0, "usage: git forge issue "@ + sub)
            &&& sub == "help"@ || sub == "-h"@ || sub == "--help"@ ==> r == commands::issue_request(
                seq![],
            )
            &&& commands::issue_request(seq![]) is Ok && commands::issue_request(
                seq![],
            )->Ok_0 is Print
            &&& sub.len() > 0 && !is_issue_command(sub) && sub != "help"@ && sub != "-h"@ && sub
                != "--help"@ ==> r is Err && passages::holds(r->Err_0, sub)
        }),
{
    lemma_words();
    let argv = seq![sub] + args;
    assert(argv[0] == sub);
    if cli::help_asked(args, 0) {
        lemma_help(sub, args);
    }
    passages::lemma_holds("unknown issue subcommand '"@, sub, "'"@);
    if is_issue_command(sub) && cli::help_asked(args, 0) {
        lemma_issue_usage(sub);
    }
}

proof fn lemma_help(sub: Seq<char>, args: Seq<Seq<char>>)
    requires
        cli::help_asked(args, 0),
    ensures
        cli::help_asked(seq![sub] + args, 1),
{
    cli_laws::law_help_is_asked(args, 0);
    let all = seq![sub] + args;
    cli_laws::law_help_is_asked(all, 1);
    let k = choose|k: int|
        #![trigger args[k]]
        0 <= k < args.len() && (args[k] == "-h"@ || args[k] == "--help"@) && forall|j: int|
            0 <= j < k ==> #[trigger] args[j] != "--"@;
    assert(all[k + 1] == args[k]);
    assert forall|j: int| 1 <= j < k + 1 implies #[trigger] all[j] != "--"@ by {
        assert(all[j] == args[j - 1]);
    }
}

proof fn lemma_issue_usage(sub: Seq<char>)
    requires
        is_issue_command(sub),
    ensures
        commands::issue_sub_usage_text(sub) is Some,
        text::starts_with(
            commands::issue_sub_usage_text(sub).unwrap(),
            "usage: git forge issue "@ + sub,
        ),
{
    lemma_words();
    reveal_strlit("new");
    reveal_strlit("list");
    reveal_strlit("show");
    reveal_strlit("comment");
    reveal_strlit("close");
    reveal_strlit("reopen");
    reveal_strlit("usage: git forge issue ");
    reveal_strlit("usage: git forge issue new <title> [description] [--label <x>]...");
    reveal_strlit("usage: git forge issue list");
    reveal_strlit("usage: git forge issue show <n>");
    reveal_strlit("usage: git forge issue comment <n> <body>");
    reveal_strlit("usage: git forge issue close <n>");
    reveal_strlit("usage: git forge issue reopen <n>");
    let p = "usage: git forge issue "@ + sub;
    let u = commands::issue_sub_usage_text(sub).unwrap();
    assert(u.take(p.len() as int) =~= p);
}

// ---------------------------------------------------------------------------
// Pull requests

/// Each command on pull requests asks for what it is named after, on the number that
/// stands behind it.
pub proof fn law_pr_commands(n: nat, rest: Seq<Seq<char>>)
    requires
        1 <= n <= u64::MAX,
    ensures
        ({
            let d = text::decimal(n);
            let id = n as int;
            &&& commands::pr_request(seq!["list"@] + rest) == Ok::<commands::PrRequest, Seq<char>>(
                commands::PrRequest::List,
            )
            &&& commands::pr_request(seq!["show"@, d] + rest) == Ok::<
                commands::PrRequest,
                Seq<char>,
            >(commands::PrRequest::Show(Ok(id)))
            &&& commands::pr_request(seq!["diff"@, d] + rest) == Ok::<
                commands::PrRequest,
                Seq<char>,
            >(commands::PrRequest::Diff(Ok(id)))
        }),
{
    lemma_words();
    let d = text::decimal(n);
    cli_laws::law_number_reads_back(n);
    assert((seq!["list"@] + rest)[0] == "list"@);
    let a = seq!["show"@, d] + rest;
    let b = seq!["diff"@, d] + rest;
    assert(a[0] == "show"@ && b[0] == "diff"@);
    assert(a.skip(1)[0] == d && b.skip(1)[0] == d);
}

/// A new pull request, a comment, a review and a merge are read from what stands behind
/// the word.
pub proof fn law_pr_arguments(args: Seq<Seq<char>>)
    ensures
        match (commands::pr_request(seq!["create"@] + args), cli::new_pr_of(args)) {
            (Ok(r), Ok(m)) => r == commands::PrRequest::Create(m),
            (Err(e), Err(f)) => e == f,
            _ => false,
        },
        match (
            commands::pr_request(seq!["comment"@] + args),
            cli::comment_of(args, "usage: git forge pr comment <n> <body>"@),
        ) {
            (Ok(r), Ok((id, body))) => r == commands::PrRequest::Comment(id, body),
            (Err(e), Err(f)) => e == f,
            _ => false,
        },
        match (commands::pr_request(seq!["review"@] + args), cli::review_of(args)) {
            (Ok(r), Ok(v)) => r == commands::PrRequest::Review(v),
            (Err(e), Err(f)) => e == f,
            _ => false,
        },
        commands::pr_request(seq!["merge"@] + args) == Ok::<commands::PrRequest, Seq<char>>(
            commands::PrRequest::Merge(merge::merge_request(args)),
        ),
{
    lemma_words();
    assert((seq!["create"@] + args).skip(1) =~= args);
    assert((seq!["comment"@] + args).skip(1) =~= args);
    assert((seq!["review"@] + args).skip(1) =~= args);
    assert((seq!["merge"@] + args).skip(1) =~= args);
    assert((seq!["create"@] + args)[0] == "create"@);
    assert((seq!["comment"@] + args)[0] == "comment"@);
    assert((seq!["review"@] + args)[0] == "review"@);
    assert((seq!["merge"@] + args)[0] == "merge"@);
}

/// A word that is no command on pull requests or CI runs is refused by its name, and help
/// is what is printed without any word.
pub proof fn law_other_words(sub: Seq<char>, args: Seq<Seq<char>>)
    ensures
        ({
            let help = sub == "help"@ || sub == "-h"@ || sub == "--help"@;
            let p = commands::pr_request(seq![sub] + args);
            let c = commands::ci_request(seq![sub] + args);
            &&& help ==> p == commands::pr_request(seq![])
            &&& help ==> c == commands::ci_request(seq![])
            &&& commands::pr_request(seq![]) is Ok && commands::pr_request(seq![])->Ok_0 is Print
            &&& commands::ci_request(seq![]) is Ok && commands::ci_request(seq![])->Ok_0 is Print
            &&& sub.len() > 0 && !help && sub != "run"@ ==> c is Err && passages::holds(
                c->Err_0,
                sub,
            )
            &&& sub.len() > 0 && !help && sub != "create"@ && sub != "list"@ && sub != "show"@ && sub
                != "comment"@ && sub != "review"@ && sub != "diff"@ && sub != "merge"@ ==> p is Err
                && passages::holds(p->Err_0, sub)
        }),
{
    lemma_words();
    assert((seq![sub] + args)[0] == sub);
    passages::lemma_holds("unknown pr subcommand '"@, sub, "'"@);
    passages::lemma_holds("unknown ci subcommand '"@, sub, "'"@);
}

/// A CI run is asked for by the number of the pull request.
pub proof fn law_ci_run_is_asked_for(n: nat, rest: Seq<Seq<char>>, bad: Seq<char>)
    requires
        1 <= n <= u64::MAX,
    ensures
        commands::ci_request(seq!["run"@, text::decimal(n)] + rest) == Ok::<
            commands::CiRequest,
            Seq<char>,
        >(commands::CiRequest::Run(n as int)),
        cli::entity_id_of(bad) is Err ==> commands::ci_request(seq!["run"@, bad] + rest) is Err,
        commands::ci_request(seq!["run"@]) is Err,
{
    lemma_words();
    cli_laws::law_number_reads_back(n);
    let a = seq!["run"@, text::decimal(n)] + rest;
    let b = seq!["run"@, bad] + rest;
    assert(a[0] == "run"@ && a[1] == text::decimal(n));
    assert(b[0] == "run"@ && b[1] == bad);
}

// ---------------------------------------------------------------------------
// The program

/// Each area answers under its own name, and a leading `forge` makes no difference to it.
pub proof fn law_areas(argv: Seq<Seq<char>>)
    ensures
        ({
            let issue = commands::forge_request(seq!["issue"@] + argv);
            let pr = commands::forge_request(seq!["pr"@] + argv);
            let ci = commands::forge_request(seq!["ci"@] + argv);
            &&& issue == (match commands::issue_request(argv) {
                Ok(r) => Ok::<commands::ForgeRequest, Seq<char>>(commands::ForgeRequest::Issue(r)),
                Err(e) => Err(e),
            })
            &&& pr == (match commands::pr_request(argv) {
                Ok(r) => Ok::<commands::ForgeRequest, Seq<char>>(commands::ForgeRequest::Pr(r)),
                Err(e) => Err(e),
            })
            &&& ci == (match commands::ci_request(argv) {
                Ok(r) => Ok::<commands::ForgeRequest, Seq<char>>(commands::ForgeRequest::Ci(r)),
                Err(e) => Err(e),
            })
            &&& commands::forge_request(seq!["forge"@, "issue"@] + argv) == issue
            &&& commands::forge_request(seq!["forge"@, "pr"@] + argv) == pr
            &&& commands::forge_request(seq!["forge"@, "ci"@] + argv) == ci
        }),
{
    lemma_words();
    lemma_area("issue"@, argv);
    lemma_area("pr"@, argv);
    lemma_area("ci"@, argv);
}

proof fn lemma_area(area: Seq<char>, argv: Seq<Seq<char>>)
    ensures
        (seq![area] + argv)[0] == area,
        (seq![area] + argv).skip(1) == argv,
        (seq!["forge"@, area] + argv)[0] == "forge"@,
        (seq!["forge"@, area] + argv).skip(1) == seq![area] + argv,
{
    assert((seq![area] + argv).skip(1) =~= argv);
    assert((seq!["forge"@, area] + argv).skip(1) =~= seq![area] + argv);
}

/// A word that is no area is refused by its name.
pub proof fn law_unknown_area(word: Seq<char>, argv: Seq<Seq<char>>)
    requires
        word != "issue"@,
        word != "pr"@,
        word != "ci"@,
        word != "forge"@,
        word != "help"@,
        word != "-h"@,
        word != "--help"@,
    ensures
        commands::forge_request(seq![word] + argv) is Err,
        passages::holds(commands::forge_request(seq![word] + argv)->Err_0, word),
        commands::forge_request(seq!["forge"@, word] + argv) is Err,
        passages::holds(commands::forge_request(seq!["forge"@, word] + argv)->Err_0, word),
{
    lemma_words();
    lemma_area(word, argv);
    passages::lemma_holds("unknown command '"@, word, "'"@);
    passages::lemma_holds("unknown forge subcommand '"@, word, "'"@);
}

proof fn lemma_base_name(dir: Seq<char>, name: Seq<char>)
    requires
        forall|i: int| 0 <= i < name.len() ==> #[trigger] name[i] != '/',
    ensures
        commands::base_name(dir + seq!['/'] + name) == name,
        commands::base_name(name) == name,
    decreases name.len(),
{
    let p = dir + seq!['/'] + name;
    if name.len() == 0 {
        assert(p.last() == '/');
    } else {
        let n = name.drop_last();
        assert(forall|i: int| 0 <= i < n.len() ==> n[i] == name[i]);
        lemma_base_name(dir, n);
        assert(p.last() == name[name.len() - 1]);
        assert(p.drop_last() =~= dir + seq!['/'] + n);
        assert(n.push(name.last()) =~= name);
        assert(name[name.len() - 1] != '/');
    }
}

/// Called as `git-issue` or `git-pr`, from whichever directory, the program answers as it
/// does in that area; under any other name it takes the area from its arguments.
pub proof fn law_program_names(dir: Seq<char>, argv: Seq<Seq<char>>, other: Seq<char>)
    requires
        forall|i: int| 0 <= i < other.len() ==> #[trigger] other[i] != '/',
        other != "git-issue"@,
        other != "git-pr"@,
    ensures
        commands::program_request(dir + seq!['/'] + "git-issue"@, argv) == commands::forge_request(
            seq!["issue"@] + argv,
        ),
        commands::program_request("git-issue"@, argv) == commands::forge_request(
            seq!["issue"@] + argv,
        ),
        commands::program_request(dir + seq!['/'] + "git-pr"@, argv) == commands::forge_request(
            seq!["pr"@] + argv,
        ),
        commands::program_request("git-pr"@, argv) == commands::forge_request(seq!["pr"@] + argv),
        commands::program_request(dir + seq!['/'] + other, argv) == commands::forge_request(argv),
        commands::program_request(other, argv) == commands::forge_request(argv),
{
    reveal_strlit("git-issue");
    reveal_strlit("git-pr");
    lemma_base_name(dir, "git-issue"@);
    lemma_base_name(dir, "git-pr"@);
    lemma_base_name(dir, other);
    law_areas(argv);
    assert("git-issue"@.len() == 9 && "git-pr"@.len() == 6);
}

// ---------------------------------------------------------------------------
// What is shown of a number

/// Of a number without a chain it is told that it does not exist, of one whose chain holds
/// no events that it has none; both tell the number, and everything else shows the page of
/// what the chain amounts to.
pub proof fn law_answers(id: int, es: Seq<event::EventModel>)
    requires
        es.len() > 0,
    ensures
        ({
            let issue = "issue #"@ + text::decimal(id as nat);
            let pr = "PR #"@ + text::decimal(id as nat);
            &&& render::issue_answer(id, Some(es)) == Ok::<Seq<char>, Seq<char>>(
                render::issue_page_text(event::folded(es).issue),
            )
            &&& render::pr_answer(id, Some(es)) == Ok::<Seq<char>, Seq<char>>(
                render::pr_page_text(event::folded(es).pr),
            )
            &&& render::issue_answer(id, None) == Err::<Seq<char>, Seq<char>>(
                issue + " does not exist"@,
            )
            &&& render::issue_answer(id, Some(seq![])) == Err::<Seq<char>, Seq<char>>(
                issue + " has no events"@,
            )
            &&& render::pr_answer(id, None) == Err::<Seq<char>, Seq<char>>(
                pr + " does not exist"@,
            )
            &&& render::pr_answer(id, Some(seq![])) == Err::<Seq<char>, Seq<char>>(
                pr + " has no events"@,
            )
            &&& messages::entity_name(messages::Entity::Issue, id) == issue
            &&& messages::entity_name(messages::Entity::Pr, id) == pr
        }),
{
}

} // verus!
