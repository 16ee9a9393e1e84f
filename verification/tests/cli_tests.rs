//! Command lines.

use git_forge::cli::{
    branch_ref, check_anchor, decision_str, help_requested, not_a_branch, parse_comment,
    parse_entity_id, parse_new_issue, parse_new_pr, parse_review, parse_unsigned,
    stored_title,
};
use git_forge::commands::{
    called_as, run_ci, run_forge, run_issue, run_pr, run_program, CalledAs, CiCommand,
    ForgeCommand, IssueCommand, PrCommand,
};
use git_forge::merge::{merge_help, parse_merge, MergeCommand, Strategy};

fn args(words: &[&str]) -> Vec<String> {
    words.iter().map(|w| w.to_string()).collect()
}

#[test]
fn entity_ids() {
    assert_eq!(parse_entity_id("7"), Ok(7));
    assert_eq!(parse_entity_id("+7"), Ok(7));
    assert_eq!(parse_entity_id("18446744073709551615"), Ok(u64::MAX));
    assert_eq!(parse_entity_id(""), Err("empty entity id".to_string()));
    assert_eq!(
        parse_entity_id("0"),
        Err("entity id must be positive".to_string())
    );
    for s in ["x", "-1", "1 ", "18446744073709551616", "+", "1.0"] {
        assert_eq!(
            parse_entity_id(s),
            Err(format!("invalid entity id '{s}' (expected a positive integer)"))
        );
    }
}

#[test]
fn unsigned_numbers_are_read_as_std_reads_them() {
    for s in ["", "+", "-", "0", "+0", "007", "99", "x", "18446744073709551615", "18446744073709551616", "++1", "１"] {
        assert_eq!(parse_unsigned(s), s.parse::<u64>().ok(), "{s:?}");
    }
}

#[test]
fn a_new_issue() {
    let n = parse_new_issue(&args(&[" T ", "--label", " bug ", " D ", "-l", "x"])).unwrap();
    assert_eq!(n.title, "T");
    assert_eq!(n.description.as_deref(), Some("D"));
    assert_eq!(n.labels, vec!["bug", "x"]);
    // Behind `--` a flag is a title.
    let n = parse_new_issue(&args(&["--", "--label"])).unwrap();
    assert_eq!(n.title, "--label");
    assert_eq!(n.description, None);
    let usage = "usage: git forge issue new <title> [description] [--label <x>]...";
    assert_eq!(
        parse_new_issue(&[]).unwrap_err(),
        format!("{usage} — title is required and non-empty")
    );
    assert_eq!(
        parse_new_issue(&args(&["  "])).unwrap_err(),
        format!("{usage} — title is required and non-empty")
    );
    assert_eq!(
        parse_new_issue(&args(&["a", "b", "c"])).unwrap_err(),
        format!("{usage} — too many positional arguments")
    );
    assert_eq!(
        parse_new_issue(&args(&["a", "--label"])).unwrap_err(),
        "--label requires a value"
    );
    assert_eq!(
        parse_new_issue(&args(&["a", "-l", " "])).unwrap_err(),
        "--label requires a non-empty value"
    );
}

#[test]
fn comments() {
    assert_eq!(
        parse_comment(&args(&["3", " a", "b "]), "U"),
        Ok((3, "a b".to_string()))
    );
    assert_eq!(parse_comment(&args(&["3"]), "U"), Err("U".to_string()));
    assert_eq!(
        parse_comment(&args(&["3", " "]), "U"),
        Err("comment body must be non-empty".to_string())
    );
    assert_eq!(
        parse_comment(&args(&["0", "x"]), "U"),
        Err("entity id must be positive".to_string())
    );
}

#[test]
fn a_new_pull_request() {
    let n = parse_new_pr(&args(&[
        "--source", "f", "--base", "main", " T ", "--body", " B ", "--label", "x",
    ]))
    .unwrap();
    assert_eq!((n.source.as_str(), n.base.as_str()), ("f", "main"));
    assert_eq!(n.title, " T ");
    assert_eq!(stored_title(&n), "T");
    assert_eq!(n.body.as_deref(), Some("B"));
    assert_eq!(n.labels, vec!["x"]);
    let n = parse_new_pr(&args(&["--source", "f", "--base", "m", "--body", " ", "--", "-T"])).unwrap();
    assert_eq!(n.title, "-T");
    assert_eq!(n.body, None);
    let usage = "usage: git forge pr create --source <branch> --base <branch> <title>";
    let many = format!("too many positional arguments; {usage}");
    for (words, error) in [
        (vec![], usage),
        (vec!["--source", "f", "T"], usage),
        (vec!["--source"], "--source requires a branch name"),
        (vec!["--base"], "--base requires a branch name"),
        (vec!["--body"], "--body requires a description"),
        (vec!["-l"], "--label requires a value"),
        (vec!["--what"], "unknown option '--what'"),
        (vec!["-x"], "unknown option '-x'"),
        (vec!["a", "b"], many.as_str()),
        (vec!["--", "a", "b"], many.as_str()),
        (
            vec!["--source", "f", "--base", "m", " "],
            "PR title is required and must be non-empty",
        ),
    ] {
        assert_eq!(parse_new_pr(&args(&words)).unwrap_err(), error);
    }
}

#[test]
fn branches() {
    assert_eq!(
        branch_ref("feat/x"),
        Ok(("feat/x".to_string(), "refs/heads/feat/x".to_string()))
    );
    assert_eq!(
        branch_ref("refs/heads/feat/x"),
        Ok(("feat/x".to_string(), "refs/heads/feat/x".to_string()))
    );
    assert_eq!(
        branch_ref(""),
        Err("branch name must be non-empty".to_string())
    );
    assert_eq!(branch_ref("refs/heads/"), Err(not_a_branch("refs/heads/")));
    assert_eq!(
        not_a_branch("v1"),
        "'v1' is not a canonical local branch; use a plain branch name (tags, remote-tracking refs, OIDs, and revision expressions are rejected)"
    );
}

#[test]
fn reviews() {
    let r = parse_review(&args(&["4", "--reject", "--approve", "stray"])).unwrap();
    assert_eq!((r.id, r.approve), (4, true));
    assert!(check_anchor(&r).is_ok());
    assert_eq!(decision_str(r.approve), "approve");
    assert_eq!(decision_str(false), "reject");
    let r = parse_review(&args(&["4", "--approve", "--file", "a", "--line", "1"])).unwrap();
    assert_eq!(
        check_anchor(&r).unwrap_err(),
        "inline review requires --commit <hash> to anchor the comment (FR-005); add --commit or drop --file/--line"
    );
    let r = parse_review(&args(&["4", "--approve", "--line", "1", "--commit", "c"])).unwrap();
    assert!(check_anchor(&r).is_ok());
    for (words, error) in [
        (vec!["4"], "usage: git forge pr review <n> --approve|--reject"),
        (vec![], "empty entity id"),
        (vec!["4", "--file"], "--file requires a path"),
        (vec!["4", "--line"], "--line requires a number"),
        (vec!["4", "--commit"], "--commit requires a hash"),
        (vec!["4", "--nope"], "unknown option '--nope'"),
    ] {
        assert_eq!(parse_review(&args(&words)).unwrap_err(), error);
    }
}

#[test]
fn merges() {
    let merge = |id, strategy| Ok(MergeCommand::Merge { id, strategy });
    assert_eq!(parse_merge(&args(&["2"])), merge(2, Strategy::Merge));
    assert_eq!(
        parse_merge(&args(&["--squash", "2"])),
        merge(2, Strategy::Squash)
    );
    assert_eq!(
        parse_merge(&args(&["2", "--rebase"])),
        merge(2, Strategy::Rebase)
    );
    assert_eq!(parse_merge(&args(&["2", "--help"])), Ok(MergeCommand::Help));
    assert!(merge_help().starts_with("usage: git forge pr merge"));
    for (words, error) in [
        (vec!["--squash"], "empty entity id"),
        (
            vec!["1", "--squash", "--rebase"],
            "merge strategy flag specified more than once",
        ),
        (
            vec!["1", "--merge", "--merge"],
            "merge strategy flag specified more than once",
        ),
        (vec!["1", "--bogus"], "unknown option '--bogus'"),
        (
            vec!["1", "2"],
            "usage: git forge pr merge [<n>] [--merge|--squash|--rebase] (only one PR id allowed)",
        ),
    ] {
        assert_eq!(parse_merge(&args(&words)).unwrap_err(), error);
    }
}

#[test]
fn issue_commands() {
    assert_eq!(run_issue(&args(&["list"])), Ok(IssueCommand::List));
    assert_eq!(
        run_issue(&args(&["show", "5"])),
        Ok(IssueCommand::Show(Ok(5)))
    );
    assert_eq!(
        run_issue(&args(&["show"])),
        Ok(IssueCommand::Show(Err("empty entity id".to_string())))
    );
    assert_eq!(
        run_issue(&args(&["close", "5"])),
        Ok(IssueCommand::SetState { close: true, id: 5 })
    );
    assert_eq!(
        run_issue(&args(&["reopen", "5"])),
        Ok(IssueCommand::SetState { close: false, id: 5 })
    );
    assert_eq!(
        run_issue(&args(&["comment", "5", "x"])),
        Ok(IssueCommand::Comment {
            id: 5,
            body: "x".to_string()
        })
    );
    assert_eq!(
        run_issue(&args(&["comment", "5"])),
        Err("usage: git forge issue comment <n> <body>".to_string())
    );
    assert_eq!(
        run_issue(&args(&["what"])),
        Err("unknown issue subcommand 'what'".to_string())
    );
    // Help on a subcommand comes before everything else, but not behind `--`.
    assert_eq!(
        run_issue(&args(&["show", "--help"])),
        Ok(IssueCommand::Print("usage: git forge issue show <n>".to_string()))
    );
    assert!(matches!(
        run_issue(&args(&["new", "--", "--help"])),
        Ok(IssueCommand::New(_))
    ));
    assert!(help_requested(&args(&["a", "-h"]), 1));
    assert!(!help_requested(&args(&["a", "--", "-h"]), 1));
    assert_eq!(run_issue(&[]), run_issue(&args(&["help"])));
}

#[test]
fn pr_and_ci_commands() {
    assert_eq!(run_pr(&args(&["list"])), Ok(PrCommand::List));
    assert_eq!(run_pr(&args(&["diff", "2"])), Ok(PrCommand::Diff(Ok(2))));
    assert_eq!(run_pr(&args(&["show", "2"])), Ok(PrCommand::Show(Ok(2))));
    assert!(matches!(
        run_pr(&args(&["review", "2", "--approve"])),
        Ok(PrCommand::Review(_))
    ));
    assert!(matches!(
        run_pr(&args(&["merge", "x"])),
        Ok(PrCommand::Merge(Err(_)))
    ));
    assert_eq!(
        run_pr(&args(&["comment", "1"])),
        Err("usage: git forge pr comment <n> <body>".to_string())
    );
    assert_eq!(
        run_pr(&args(&["what"])),
        Err("unknown pr subcommand 'what'".to_string())
    );
    assert_eq!(run_pr(&[]), run_pr(&args(&["--help"])));
    assert_eq!(run_ci(&args(&["run", "3"])), Ok(CiCommand::Run { id: 3 }));
    assert_eq!(
        run_ci(&args(&["run"])),
        Err("empty entity id".to_string())
    );
    assert_eq!(
        run_ci(&args(&["what"])),
        Err("unknown ci subcommand 'what'".to_string())
    );
    assert_eq!(run_ci(&[]), run_ci(&args(&["-h"])));
}

#[test]
fn the_program_answers_to_three_names() {
    assert_eq!(called_as("/usr/bin/git-issue"), CalledAs::Issue);
    assert_eq!(called_as("git-pr"), CalledAs::Pr);
    assert_eq!(called_as("/x/git-forge"), CalledAs::Forge);
    assert_eq!(called_as("git-pr/"), CalledAs::Forge);
    assert_eq!(
        run_program("/b/git-pr", &args(&["list"])),
        Ok(ForgeCommand::Pr(PrCommand::List))
    );
    assert_eq!(
        run_program("git-issue", &args(&["list"])),
        Ok(ForgeCommand::Issue(IssueCommand::List))
    );
    assert_eq!(
        run_program("git-forge", &args(&["forge", "ci", "run", "1"])),
        Ok(ForgeCommand::Ci(CiCommand::Run { id: 1 }))
    );
    assert_eq!(
        run_forge(&args(&["issue", "list"])),
        run_forge(&args(&["forge", "issue", "list"]))
    );
    assert_eq!(run_forge(&[]), run_forge(&args(&["--help"])));
    assert_eq!(
        run_forge(&args(&["what"])),
        Err("unknown command 'what'".to_string())
    );
    assert_eq!(
        run_forge(&args(&["forge", "what"])),
        Err("unknown forge subcommand 'what'".to_string())
    );
}
