//! Git's answers, who writes, what is recorded, and what is shown.

use git_forge::event::{fold, labels_from, Event, EventKind, JsonObject};
use git_forge::git::{
    check_ends, classify_config_get, config_command, merge_base_command,
    require_single_merge_base, worktree_list_output,
};
use git_forge::identity::{resolve_identity, usable};
use git_forge::messages::{
    base_missing, comment_added, complaint, config_not_started, diff_range, does_not_exist, has_no_events, issue_created,
    issue_state_set, no_such_anchor, no_working_directory, pr_created, reviewed,
    snapshot_missing, snapshot_unreadable, Entity,
};
use git_forge::oid::Oid;
use git_forge::records::{
    check_body, comment_body, issue_created_body, merge_body, pending_check_body, pr_created_body,
    review_body, state_kind,
};
use git_forge::refs::{update_line, RefName, COUNTER_REF, ZERO_OID};
use git_forge::render::{
    issue_list, issue_page, list_issues, list_prs, pr_list, pr_page, sanitize_terminal, show_issue,
    show_pr,
};
use git_forge::worktree::{
    add_command, branch_checked_out, is_among, registered_worktrees, remove_command, temporary_name, Purpose,
};

fn oid(n: u32) -> Oid {
    Oid {
        head: 0,
        middle: 0,
        tail: n,
    }
}

fn some(s: &str) -> Option<String> {
    Some(s.to_string())
}

#[test]
fn one_merge_base() {
    let hex = oid(5).to_hex();
    let base = require_single_merge_base;
    assert_eq!(base(Some(0), &hex, "", None, false), Ok(oid(5)));
    assert_eq!(
        base(Some(1), "", "", None, true).unwrap_err(),
        "no merge base (shallow history) — deepen/unshallow the repository first"
    );
    let unrelated = "no merge base — the source/base histories are unrelated, or history is shallow; deepen/unshallow before creating a PR";
    assert_eq!(base(Some(1), "", "", None, false).unwrap_err(), unrelated);
    assert_eq!(base(Some(0), "", "", None, false).unwrap_err(), unrelated);
    assert_eq!(
        base(Some(0), &format!("{hex}\n\n{hex}\n"), "", None, false).unwrap_err(),
        "multiple merge bases (2) suggest a criss-cross history; cannot create the PR"
    );
    assert_eq!(
        base(Some(128), "", " fatal: x ", None, false).unwrap_err(),
        "git merge-base failed: fatal: x"
    );
    assert_eq!(
        base(None, "", "", Some("nope"), false).unwrap_err(),
        "git merge-base failed: nope"
    );
    assert_eq!(
        base(Some(0), "zzz", "", None, false).unwrap_err(),
        "invalid merge-base oid"
    );
    assert_eq!(
        merge_base_command(oid(1), oid(2)).join(" "),
        format!("merge-base --all {} {}", oid(1).to_hex(), oid(2).to_hex())
    );
}

#[test]
fn the_ends_of_a_pull_request_differ() {
    assert!(check_ends("f", "main", oid(1), oid(2)).is_ok());
    assert_eq!(
        check_ends("m", "m", oid(1), oid(2)).unwrap_err(),
        "source and base branch must differ (no self-PR)"
    );
    assert_eq!(
        check_ends("f", "m", oid(1), oid(1)).unwrap_err(),
        "source and base branches resolve to the same commit (no self-PR)"
    );
}

#[test]
fn worktrees() {
    assert_eq!(worktree_list_output(Some(0), "x", None), Ok("x".to_string()));
    assert_eq!(
        worktree_list_output(Some(1), "x", None).unwrap_err(),
        "git worktree list failed"
    );
    assert_eq!(
        worktree_list_output(None, "", Some("E")).unwrap_err(),
        "git worktree list failed: E"
    );
    let list = "worktree /a b\nHEAD x\nbranch refs/heads/main\n\nworktree /c\ndetached\n";
    assert_eq!(registered_worktrees(list), vec!["/a b", "/c"]);
    assert!(branch_checked_out(list, "main"));
    assert!(!branch_checked_out(list, "ma"));
    assert_eq!(
        temporary_name(Purpose::Merge, 9, 0x1f2e, 77, 0),
        "git-forge-pr9-merge-1f2e-77-0"
    );
    assert_eq!(
        temporary_name(Purpose::Ci, 9, 0, 77, 3),
        "git-forge-pr9-ci-0-77-3"
    );
    assert_eq!(
        add_command(Purpose::Merge, "/t", oid(1)).join(" "),
        format!("worktree add --detach /t {}", oid(1).to_hex())
    );
    assert_eq!(
        add_command(Purpose::Ci, "/t", oid(1)).join(" "),
        format!("-c core.hooksPath=/dev/null worktree add --detach /t {}", oid(1).to_hex())
    );
    assert_eq!(remove_command("/t").join(" "), "worktree remove --force /t");
}

#[test]
fn a_diagnostic_is_escaped() {
    assert_eq!(config_command("user.name").join(" "), "config --null --get user.name");
    assert_eq!(
        classify_config_get(Some(128), b"", b" a\x1b[2J\xff\n", "user.name").unwrap_err(),
        "repo config is unreadable (git config --get user.name failed): a\\x1b[2J\u{fffd}\\x0a"
    );
    assert_eq!(
        classify_config_get(Some(5), b"", b"boom", "user.name").unwrap_err(),
        "git config --get user.name exited 5: boom"
    );
}

#[test]
fn who_writes() {
    let who = resolve_identity(some("Dev"), some("d@x"));
    assert_eq!((who.name.as_str(), who.email.as_str(), who.actor.as_str()), ("Dev", "d@x", "d@x"));
    // An address alone is the actor, but makes no committer.
    let who = resolve_identity(None, some("d@x"));
    assert_eq!(
        (who.name.as_str(), who.email.as_str(), who.actor.as_str()),
        ("git-forge", "forge@localhost", "d@x")
    );
    let who = resolve_identity(some("Dev"), some("  "));
    assert_eq!(who.actor, "forge@localhost");
    assert_eq!(usable(some(" ")), None);
    assert_eq!(usable(some(" a ")), some(" a "));
    // What Git does not take for a signature.
    for name in ["a<b", "<>", ",:;", "a\0b", "\"'\\"] {
        let who = resolve_identity(some(name), some("d@x"));
        assert_eq!(who.name, "git-forge", "{name:?}");
        assert_eq!(who.actor, "d@x");
    }
    for name in [".", "é", " a ", "O'Neil", ", a"] {
        let who = resolve_identity(some(name), some("d@x"));
        assert_eq!(who.name, name);
        assert!(git2::Signature::now(name, "d@x").is_ok());
    }
}

#[test]
fn ref_paths() {
    assert_eq!(RefName::Counter.path(), COUNTER_REF);
    assert_eq!(RefName::Issue(3).path(), "refs/forge/issues/3");
    assert_eq!(RefName::PrHead(3).path(), "refs/forge/prs/3/head");
    assert_eq!(RefName::PrMeta(3).path(), "refs/forge/prs/3/meta");
    assert_eq!(RefName::PrSource(3).path(), "refs/forge/prs/3/source");
    assert_eq!(RefName::PrBase(3).path(), "refs/forge/prs/3/base");
    assert_eq!(RefName::PrResult(3).path(), "refs/forge/prs/3/result");
    assert_eq!(
        update_line("r", None, Some(oid(1))),
        format!("update r {ZERO_OID} {}", oid(1).to_hex())
    );
}

fn pr_event(kind: EventKind, body: JsonObject) -> Event {
    Event::from_seed(1, 60, kind, "pr", 9, "a@x", body)
}

#[test]
fn what_is_recorded_shows() {
    let labels = vec!["x".to_string(), "y".to_string()];
    let body = pr_created_body("T\u{7}", "f", "main", oid(1), oid(2), oid(3), Some("D"), &labels);
    assert_eq!(labels_from(&body), labels);
    let mut events = vec![pr_event(EventKind::PrCreated, body)];
    events.push(pr_event(EventKind::CiCheck, pending_check_body()));
    assert_eq!(
        pr_page(&fold(&events).pr),
        format!(
            "PR #9 T\\x07 — no review yet\nci: pending\nbase: main\nsource: f\ndiff: {}...{}\ndescription: D\nlabels: x, y",
            oid(2).to_hex(),
            oid(1).to_hex()
        )
    );
    events.push(pr_event(EventKind::CiCheck, check_body(false, "just check")));
    events.push(pr_event(
        EventKind::PrReview,
        review_body("approve", Some("a.rs"), Some("4"), Some("c")),
    ));
    events.push(pr_event(EventKind::PrComment, comment_body("one\ntwo")));
    events.push(pr_event(EventKind::PrMerge, merge_body(oid(7))));
    let st = fold(&events).pr;
    assert_eq!(
        pr_page(&st),
        format!(
            "PR #9 T\\x07 — decision: approve\nmerged: {}\nci: failed (just check)\nbase: main\nsource: f\ndiff: {}...{}\ndescription: D\nlabels: x, y\ncomment: one\\x0atwo",
            oid(7).to_hex(),
            oid(2).to_hex(),
            oid(1).to_hex()
        )
    );
    assert_eq!(st.ci_ts.as_deref(), Some("1970-01-01T00:01:00Z"));
    assert_eq!(pr_list(&[st]), "PR #9 T\\x07 (approve)");
    assert_eq!(pr_list(&[]), "(no pull requests)");
}

#[test]
fn issues_are_shown() {
    let event = |kind, body| Event::from_seed(1, 0, kind, "issue", 3, "a@x", body);
    let mut events = vec![event(
        EventKind::IssueCreated,
        issue_created_body("T", None, &["l".to_string()]),
    )];
    assert_eq!(
        issue_page(&fold(&events).issue),
        "#3 T — open\nlabels: l"
    );
    events.push(event(EventKind::IssueComment, comment_body("hi")));
    events.push(event(EventKind::IssueClose, JsonObject::new()));
    let st = fold(&events).issue;
    assert_eq!(
        issue_page(&st),
        "#3 T — closed\nlabels: l\n\ncomments:\n  - hi"
    );
    assert_eq!(issue_list(&[st]), "#3 T (closed)");
    assert_eq!(issue_list(&[]), "(no issues)");
    events.push(event(EventKind::IssueReopen, JsonObject::new()));
    assert!(fold(&events).issue.open);
    let untitled = fold(&[event(EventKind::IssueClose, JsonObject::new())]).issue;
    assert_eq!(issue_list(&[untitled]), "#3 (untitled) (closed)");
    assert_eq!(sanitize_terminal("a\u{0}b"), "a\\x00b");
}

#[test]
fn a_chain_is_folded_event_by_event() {
    let decide = |d: &str| pr_event(EventKind::PrReview, review_body(d, None, None, None));
    let st = fold(&[decide("approve"), pr_event(EventKind::PrReview, JsonObject::new())]);
    // A review without a decision leaves the decision as it is.
    assert_eq!(st.pr.effective_decision.as_deref(), Some("approve"));
    let st = fold(&[]);
    assert_eq!(st.pr.id, 0);
    assert!(!st.issue.open);
    let check = |b: bool| pr_event(EventKind::CiCheck, check_body(b, "p"));
    let st = fold(&[check(true), pr_event(EventKind::CiCheck, pending_check_body())]);
    assert_eq!(st.pr.ci_status.as_deref(), Some("pending"));
    assert_eq!(st.pr.ci_plan, None);
}

#[test]
fn what_the_user_is_told() {
    assert_eq!(does_not_exist(Entity::Issue, 3), "issue #3 does not exist");
    assert_eq!(does_not_exist(Entity::Pr, 3), "PR #3 does not exist");
    assert_eq!(has_no_events(Entity::Pr, 3), "PR #3 has no events");
    assert_eq!(comment_added(Entity::Issue, 3), "comment added to issue #3");
    assert_eq!(issue_created(3, "T"), "issue #3 created: T");
    assert_eq!(issue_state_set(3, true), "issue #3 closed");
    assert_eq!(issue_state_set(3, false), "issue #3 reopened");
    assert_eq!(pr_created(3, "T", "f", "m"), "PR #3 created: T (f -> m)");
    assert_eq!(reviewed(3, "approve"), "reviewed PR #3 (approve)");
    assert_eq!(
        no_such_anchor("x"),
        "inline review --commit 'x' does not resolve to a commit (FR-005 anchor must be a real commit)"
    );
    assert_eq!(
        snapshot_missing(3, "source"),
        "PR #3 snapshot source ref missing"
    );
    assert_eq!(base_missing("m"), "base branch 'm' does not exist");
    assert_eq!(
        diff_range(oid(1), oid(2)),
        format!("{}...{}", oid(1).to_hex(), oid(2).to_hex())
    );
}

#[test]
fn chains_without_events_are_not_listed() {
    let event = |kind, entity, id, body| Event::from_seed(1, 0, kind, entity, id, "a@x", body);
    let opened = event(
        EventKind::IssueCreated,
        "issue",
        1,
        issue_created_body("One", None, &[]),
    );
    let closed = event(EventKind::IssueClose, "issue", 4, JsonObject::new());
    assert_eq!(
        list_issues(&[vec![opened], vec![], vec![], vec![closed]]),
        "#1 One (open)\n#4 (untitled) (closed)"
    );
    assert_eq!(list_issues(&[vec![], vec![]]), "(no issues)");
    assert_eq!(list_issues(&[]), "(no issues)");
    let reviewed = event(EventKind::PrReview, "pr", 2, review_body("reject", None, None, None));
    let noted = event(EventKind::PrComment, "pr", 3, comment_body("hm"));
    assert_eq!(
        list_prs(&[vec![], vec![reviewed], vec![noted], vec![]]),
        "PR #2 (untitled) (reject)\nPR #3 (untitled) (no review)"
    );
    assert_eq!(list_prs(&[vec![]]), "(no pull requests)");
}

#[test]
fn paths_are_compared_as_they_are_spelled() {
    let paths = vec!["/tmp/a".to_string(), "/tmp/ab".to_string()];
    assert!(is_among(&paths, "/tmp/ab"));
    assert!(!is_among(&paths, "/tmp/"));
    assert!(!is_among(&paths, "/tmp/abc"));
    assert!(!is_among(&[], "/tmp/a"));
}

#[test]
fn errors_of_the_surroundings() {
    assert_eq!(no_working_directory(), "cannot resolve repository working directory");
    assert_eq!(snapshot_unreadable(), "cannot read PR snapshot source tree");
    assert_eq!(config_not_started("nope"), "failed to spawn git config: nope");
    assert_eq!(complaint("bad"), "git-forge: bad");
}

#[test]
fn a_number_is_shown_where_its_chain_holds_events() {
    let event = |entity, id, kind| Event::from_seed(1, 0, kind, entity, id, "a@x", JsonObject::new());
    assert_eq!(show_issue(3, &None).unwrap_err(), "issue #3 does not exist");
    assert_eq!(show_issue(3, &Some(vec![])).unwrap_err(), "issue #3 has no events");
    assert_eq!(
        show_issue(3, &Some(vec![event("issue", 3, state_kind(true))])).unwrap(),
        "#3 (untitled) — closed"
    );
    let chain = vec![
        event("issue", 3, state_kind(true)),
        event("issue", 3, state_kind(false)),
    ];
    assert_eq!(show_issue(3, &Some(chain)).unwrap(), "#3 (untitled) — open");
    assert_eq!(show_pr(4, &None).unwrap_err(), "PR #4 does not exist");
    assert_eq!(show_pr(4, &Some(vec![])).unwrap_err(), "PR #4 has no events");
    let chain = vec![event("pr", 4, EventKind::PrMerge)];
    let page = pr_page(&fold(&chain).pr);
    assert_eq!(show_pr(4, &Some(chain)), Ok(page));
}
