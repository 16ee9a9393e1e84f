//! Merging: what it needs, its run, and what is told of it.

use git_forge::event::{fold, Event, EventKind, PrState};
use git_forge::merge::{
    check_base, check_base_free, check_gate, check_green, check_merge, clean_command, failure_message, merged_message,
    read_merge_base, start_commit, step_command, Clean, Fault, Run, Step, Strategy, Went,
};
use git_forge::oid::Oid;
use git_forge::records::{check_body, merge_body, pr_created_body, review_body};

fn oid(n: u32) -> Oid {
    Oid {
        head: 0,
        middle: 0,
        tail: n,
    }
}

fn chain(steps: &[&str]) -> PrState {
    let body = pr_created_body("T", "f", "main", oid(1), oid(2), oid(3), None, &[]);
    let mut events = vec![Event::new(EventKind::PrCreated, "pr", 9, "a@x", body)];
    for s in steps {
        events.push(match *s {
            "approve" | "reject" => Event::new(
                EventKind::PrReview,
                "pr",
                9,
                "a@x",
                review_body(s, None, None, None),
            ),
            "green" => Event::new(EventKind::CiCheck, "pr", 9, "a@x", check_body(true, "p")),
            "red" => Event::new(EventKind::CiCheck, "pr", 9, "a@x", check_body(false, "p")),
            _ => Event::new(EventKind::PrMerge, "pr", 9, "a@x", merge_body(oid(7))),
        });
    }
    fold(&events).pr
}

#[test]
fn what_a_merge_needs() {
    assert_eq!(
        check_gate(&chain(&["green", "approve"]), 9),
        Ok("main".to_string())
    );
    for (steps, error) in [
        (vec!["green"], "PR #9 is not approved (effective decision: none)"),
        (
            vec!["green", "approve", "reject"],
            "PR #9 is not approved (effective decision: reject)",
        ),
        (vec!["approve", "green", "merge"], "PR #9 is already merged"),
        // A merged pull request is told to be merged, whatever its checks say.
        (vec!["approve", "red", "merge"], "PR #9 is already merged"),
        (vec!["approve", "merge"], "PR #9 is already merged"),
        (vec!["approve", "merge", "red"], "PR #9 is already merged"),
    ] {
        assert_eq!(check_gate(&chain(&steps), 9), Err(error.to_string()));
    }
    assert!(check_green(&chain(&["red", "green"]), 9).is_ok());
    assert_eq!(
        check_green(&chain(&["approve"]), 9).unwrap_err(),
        "PR #9 CI is not green (latest CI Check: none)"
    );
    assert_eq!(
        check_green(&chain(&["green", "red"]), 9).unwrap_err(),
        "PR #9 CI is not green (latest CI Check: failed)"
    );
    let mut st = chain(&["green", "approve"]);
    st.base_ref = None;
    assert_eq!(check_gate(&st, 9), Err("PR has no base_ref".to_string()));
}

#[test]
fn what_is_told_first_of_a_merge_that_may_not_begin() {
    let free = "worktree /r\nHEAD a\nbranch refs/heads/other\n";
    let busy = "worktree /r\nHEAD a\nbranch refs/heads/main\n";
    let ready = chain(&["approve", "green"]);
    let pending = chain(&["approve"]);
    assert_eq!(
        check_merge(&ready, 9, oid(2), oid(2), free),
        Ok("main".to_string())
    );
    let told = |st: &PrState, current, list| check_merge(st, 9, current, oid(2), list).unwrap_err();
    let merged = chain(&["approve", "red", "merge"]);
    assert_eq!(told(&merged, oid(1), busy), "PR #9 is already merged");
    assert!(told(&chain(&["reject"]), oid(1), busy).contains("is not approved"));
    // The base branch is looked at before CI is.
    assert!(told(&pending, oid(1), busy).contains("has moved"));
    assert!(told(&pending, oid(2), busy).contains("is checked out"));
    assert_eq!(
        told(&pending, oid(2), free),
        "PR #9 CI is not green (latest CI Check: none)"
    );
}

#[test]
fn the_merge_base_is_read_from_the_creation() {
    let mut st = chain(&[]);
    assert_eq!(read_merge_base(&st), Ok(oid(3)));
    st.merge_base = Some("zz".to_string());
    assert_eq!(
        read_merge_base(&st),
        Err("PR merge_base invalid".to_string())
    );
    st.merge_base = None;
    assert_eq!(
        read_merge_base(&st),
        Err("PR has no merge_base".to_string())
    );
}

#[test]
fn the_base_must_stand_still_and_be_free() {
    assert!(check_base("main", 9, oid(1), oid(1)).is_ok());
    assert_eq!(
        check_base("main", 9, oid(1), oid(2)).unwrap_err(),
        format!(
            "base branch 'main' has moved since PR #9 was created ({} != snapshot {}); recreate the PR or merge manually",
            oid(1).to_hex(),
            oid(2).to_hex()
        )
    );
    let list = "worktree /r\nHEAD a\nbranch refs/heads/main\n";
    assert_eq!(
        check_base_free(list, "main").unwrap_err(),
        "base branch 'main' is checked out in a worktree; run the merge from/against an un-checked-out base"
    );
    assert!(check_base_free(list, "mai").is_ok());
}

#[test]
fn commands_of_the_strategies() {
    assert_eq!(start_commit(Strategy::Rebase, oid(1), oid(2)), oid(1));
    assert_eq!(start_commit(Strategy::Squash, oid(1), oid(2)), oid(2));
    let command = |s, step| step_command(s, step, oid(1), oid(2), oid(3), "T").join(" ");
    assert_eq!(
        command(Strategy::Merge, Step::Integrate),
        format!("merge --no-ff --no-edit {}", oid(1).to_hex())
    );
    assert_eq!(
        command(Strategy::Squash, Step::Integrate),
        format!("merge --squash {}", oid(1).to_hex())
    );
    assert_eq!(
        command(Strategy::Rebase, Step::Integrate),
        format!("rebase --onto {} {}", oid(2).to_hex(), oid(3).to_hex())
    );
    assert_eq!(command(Strategy::Squash, Step::Commit), "commit -m T");
    assert_eq!(command(Strategy::Merge, Step::ReadHead), "rev-parse HEAD");
    assert_eq!(clean_command(Clean::Reset).join(" "), "reset --hard HEAD");
    assert_eq!(clean_command(Clean::AbortRebase).join(" "), "rebase --abort");
    assert_eq!(clean_command(Clean::Untracked).join(" "), "clean -fd");
}

/// Goes on from `s` with the replies.
fn go(mut s: Run, strategy: Strategy, titled: bool, replies: &[Went]) -> Run {
    for r in replies {
        s = s.next(strategy, titled, *r);
    }
    s
}

#[test]
fn a_run_that_goes_well() {
    let well = [Went::Well; 9];
    let s = go(Run::start(), Strategy::Merge, false, &well[..4]);
    assert_eq!(s, Run::ReadResult);
    assert!(s.owns());
    let s = go(s, Strategy::Merge, false, &well[..5]);
    assert_eq!(s, Run::Complete);
    assert!(!s.owns());
    assert_eq!(s.next(Strategy::Merge, false, Went::Well), Run::Merged);
    // A squash commits, and needs a title to do so.
    let s = go(Run::start(), Strategy::Squash, true, &well[..3]);
    assert_eq!(s, Run::Strategy(Step::Commit));
    let s = go(Run::start(), Strategy::Squash, false, &well[..3]);
    assert_eq!(
        s,
        Run::CleanUp {
            step: Clean::Reset,
            fault: Fault::NoTitle
        }
    );
}

#[test]
fn a_path_is_tried_seventeen_times() {
    let mut s = Run::start();
    for _ in 0..16 {
        s = s.next(Strategy::Merge, true, Went::Wrong);
    }
    assert_eq!(s, Run::Reserve { attempt: 16 });
    assert_eq!(
        s.next(Strategy::Merge, true, Went::Wrong),
        Run::Failed {
            fault: Fault::NoPath(16),
            left: false
        }
    );
}

#[test]
fn a_failed_strategy_is_cleaned_up() {
    let s = go(
        Run::start(),
        Strategy::Rebase,
        true,
        &[Went::Well, Went::Well, Went::Wrong],
    );
    assert_eq!(
        s,
        Run::CleanUp {
            step: Clean::ProbeRebase,
            fault: Fault::Strategy
        }
    );
    let s = go(s, Strategy::Rebase, true, &[Went::Well]);
    assert_eq!(
        s,
        Run::CleanUp {
            step: Clean::AbortRebase,
            fault: Fault::Strategy
        }
    );
    let s = go(
        s,
        Strategy::Rebase,
        true,
        &[Went::Well, Went::Well, Went::Wrong],
    );
    assert_eq!(
        s,
        Run::Failed {
            fault: Fault::Strategy,
            left: true
        }
    );
}

#[test]
fn a_merge_that_cannot_be_verified_drops_its_result() {
    let s = Run::ListTrees.next(Strategy::Merge, true, Went::Found);
    assert_eq!(s, Run::DropPending(Fault::StillListed));
    assert_eq!(
        s.next(Strategy::Merge, true, Went::Well),
        Run::Failed {
            fault: Fault::StillListed,
            left: false
        }
    );
    assert_eq!(
        Run::RemoveTree.next(Strategy::Merge, true, Went::Wrong),
        Run::DropPending(Fault::NotRemoved)
    );
    assert_eq!(
        Run::CheckDirectory.next(Strategy::Merge, true, Went::Wrong),
        Run::DropPending(Fault::DirectoryLeft)
    );
    assert_eq!(
        Run::ListTrees.next(Strategy::Merge, true, Went::Wrong),
        Run::DropPending(Fault::NotListed)
    );
    assert_eq!(
        Run::Complete.next(Strategy::Merge, true, Went::Wrong),
        Run::Failed {
            fault: Fault::NotCompleted,
            left: true
        }
    );
}

#[test]
fn what_is_told_of_failures() {
    let tell = |fault, left| failure_message(fault, left, Strategy::Rebase, 9, "C", "/t", "R");
    assert_eq!(
        tell(Fault::NoPath(16), false),
        "failed to create temporary worktree: could not reserve a unique temp worktree path after 16 attempts"
    );
    assert_eq!(
        tell(Fault::NoTree, false),
        "failed to create temporary worktree: C"
    );
    assert_eq!(
        tell(Fault::Strategy, false),
        "git rebase failed: C; worktree cleaned up, no ref changes made"
    );
    assert_eq!(
        tell(Fault::Strategy, true),
        "git rebase failed: C; temp worktree removal failed and the worktree is left at \"/t\" (R) — unlock and remove it manually"
    );
    assert_eq!(
        tell(Fault::NoTitle, false),
        "git squash failed: PR has no title; worktree cleaned up, no ref changes made"
    );
    assert_eq!(
        tell(Fault::BadResult, false),
        "git merge failed: invalid result commit; worktree cleaned up, no ref changes made"
    );
    assert_eq!(
        tell(Fault::NotKept, false),
        "git merge failed: C; worktree cleaned up, no ref changes made"
    );
    assert_eq!(
        tell(Fault::NotRemoved, true),
        "merge succeeded but temp worktree removal failed: C (worktree left at /t; pending result ref refs/forge/prs/9/result left in place)"
    );
    assert_eq!(
        tell(Fault::DirectoryLeft, false),
        "merge succeeded but temp worktree directory still exists at /t"
    );
    assert_eq!(
        tell(Fault::NotListed, false),
        "merge succeeded but worktree verification failed (git worktree list: C)"
    );
    assert_eq!(
        tell(Fault::StillListed, false),
        "merge succeeded but temp worktree still registered at /t"
    );
    assert_eq!(
        tell(Fault::NotCompleted, true),
        "merge execution finished but final transaction failed (C); refs unchanged, pending result ref refs/forge/prs/9/result left in place"
    );
    assert_eq!(
        merged_message(9, "main", oid(5)),
        format!("merged PR #9 into main ({})", oid(5).to_hex())
    );
}
