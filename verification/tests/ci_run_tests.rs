//! Running a CI plan: which one, how it is watched, and what it comes to.

use git_forge::ci::validate::{justfile_refusal, validate_justfile_text, Refusal};
use git_forge::ci::{
    ci_timeout, conclude, entry_kind, is_kept_from_plan, is_loader_variable, just_locations,
    no_tree_message, plan_arguments, plan_variables, snapshot_ci_plan, CiEvent, CiFlow, CiPlan,
    CiRun, Detail, Entry, Justfile, KillReason, Leftover, Seen, Watch, GRACE_POLLS,
};
use git_forge::merge::Went;

const FILE: Option<i32> = Some(0o100644);
const LINK: Option<i32> = Some(0o120000);
const TREE: Option<i32> = Some(0o040000);

#[test]
fn the_plan_of_a_snapshot() {
    let plan = snapshot_ci_plan;
    assert_eq!(plan(FILE, LINK, None, None), Ok(CiPlan::CiSh));
    assert_eq!(
        plan(None, Some(0o100755), LINK, None),
        Ok(CiPlan::JustCheck(Justfile::Lower))
    );
    assert_eq!(
        plan(None, None, Some(0o100664), None),
        Ok(CiPlan::JustCheck(Justfile::Upper))
    );
    assert_eq!(
        plan(None, None, None, FILE),
        Ok(CiPlan::JustCheck(Justfile::Hidden))
    );
    for (result, error) in [
        (plan(LINK, FILE, None, None), "refusing .forge/ci.sh: symlink (F-001)"),
        (
            plan(TREE, FILE, None, None),
            "refusing .forge/ci.sh: not a regular file (F-001)",
        ),
        (plan(None, LINK, FILE, None), "refusing justfile: symlink (F-012)"),
        (
            plan(None, None, TREE, None),
            "refusing Justfile: not a regular file (F-012)",
        ),
        (plan(None, None, None, LINK), "refusing .justfile: symlink (F-012)"),
        (
            plan(None, None, None, None),
            "no justfile in PR snapshot for the `just check` fallback (F-012)",
        ),
    ] {
        assert_eq!(result, Err(error.to_string()));
    }
    assert_eq!(entry_kind(Some(0o160000)), Entry::Other);
    assert_eq!(entry_kind(None), Entry::Absent);
}

#[test]
fn the_names_of_a_plan() {
    assert_eq!(CiPlan::CiSh.label(), ".forge/ci.sh");
    assert_eq!(CiPlan::CiSh.path(), ".forge/ci.sh");
    let just = CiPlan::JustCheck(Justfile::Hidden);
    assert_eq!(just.label(), "just check");
    assert_eq!(just.path(), ".justfile");
    assert_eq!(plan_arguments(CiPlan::CiSh, "/t"), vec![".forge/ci.sh"]);
    assert_eq!(
        plan_arguments(just, "/t"),
        vec!["--justfile", "/t/.justfile", "--shell", "/bin/sh", "check"]
    );
    // A script is run as it is; a justfile must be self-contained.
    assert!(CiPlan::CiSh.check_content(b"import 'x'").is_ok());
    assert_eq!(
        just.check_content(b"import 'x'").unwrap_err(),
        "refusing .justfile: an `import`/`mod` source makes the `just check` fallback non-immutable (F-012)"
    );
    assert!(just.check_content(b"check:\n  true\xff\n").is_ok());
}

#[test]
fn why_a_justfile_is_refused() {
    assert_eq!(justfile_refusal("[script]\nx:\n"), Some(Refusal::Script));
    assert_eq!(justfile_refusal("x:\n  #!/bin/sh\n"), Some(Refusal::Shebang));
    assert_eq!(justfile_refusal("set shell := ['x']"), Some(Refusal::Setting));
    assert_eq!(justfile_refusal("mod x"), Some(Refusal::Source));
    assert_eq!(justfile_refusal("x:\n  true\n"), None);
    // A comment makes no difference, nor does a byte order mark.
    assert_eq!(
        justfile_refusal("mod x # y"),
        justfile_refusal("mod x ")
    );
    assert_eq!(
        justfile_refusal("\u{feff}mod x"),
        justfile_refusal("mod x")
    );
    assert_eq!(
        validate_justfile_text("[script]\nx:\n", "justfile").unwrap_err(),
        "refusing justfile: a `script` recipe attribute makes the `just check` fallback non-immutable (F-027)"
    );
    assert_eq!(
        validate_justfile_text("x:\n\t#!/bin/sh\n", "justfile").unwrap_err(),
        "refusing justfile: a shebang recipe runs via a PATH-resolved interpreter (F-027)"
    );
    assert_eq!(
        validate_justfile_text("set fallback", "justfile").unwrap_err(),
        "refusing justfile: a `set fallback`/`set dotenv-*`/`set shell`/`set script-interpreter` setting makes the `just check` fallback non-immutable (F-012)"
    );
}

#[test]
fn the_deadline() {
    assert_eq!(ci_timeout(None), 300);
    assert_eq!(ci_timeout(Some("x")), 300);
    assert_eq!(ci_timeout(Some("")), 300);
    assert_eq!(ci_timeout(Some("0")), 1);
    assert_eq!(ci_timeout(Some("+42")), 42);
    assert_eq!(ci_timeout(Some("18446744073709551615")), 86_400);
    assert_eq!(ci_timeout(Some("18446744073709551616")), 300);
}

#[test]
fn the_environment_of_a_plan() {
    for name in ["LD_PRELOAD", "DYLD_ROOT_PATH"] {
        assert!(is_loader_variable(name));
        assert!(is_kept_from_plan(name));
    }
    for name in [
        "BASH_ENV",
        "ENV",
        "GIT_DIR",
        "GIT_EXEC_PATH",
        "SHELL",
        "IFS",
        "BASH_FUNC_just%%",
        "BASH_FUNC_%%",
    ] {
        assert!(is_kept_from_plan(name), "{name}");
        assert!(!is_loader_variable(name), "{name}");
    }
    for name in ["PATH", "HOME", "BASH_FUNC_x", "x%%", "ld_preload", "GIT_CONFIG_GLOBAL"] {
        assert!(!is_kept_from_plan(name), "{name}");
    }
    assert_eq!(
        plan_variables(),
        vec![
            ("JUST_DRY_RUN".to_string(), "false".to_string()),
            ("GIT_CONFIG_GLOBAL".to_string(), "/dev/null".to_string()),
            ("GIT_CONFIG_SYSTEM".to_string(), "/dev/null".to_string()),
        ]
    );
    let system = vec!["/usr/bin/just", "/usr/local/bin/just", "/opt/homebrew/bin/just"];
    assert_eq!(just_locations(None), system);
    assert_eq!(just_locations(Some("relative")), system);
    assert_eq!(just_locations(Some("")), system);
    let all = just_locations(Some("/home/u"));
    assert_eq!(
        all[3..],
        ["/home/u/.cargo/bin/just", "/home/u/.local/bin/just"]
    );
}

fn ended(status: Option<i32>, timed_out: bool, detail: Option<Detail>) -> Watch {
    Watch::Done(CiRun {
        status,
        timed_out,
        detail,
    })
}

#[test]
fn a_plan_that_ends_by_itself() {
    let w = Watch::start().next(Seen::GoesOn).next(Seen::Ended(Some(0)));
    assert_eq!(w, Watch::Probe(Some(0)));
    assert_eq!(w.next(Seen::GroupEmpty), ended(Some(0), false, None));
    // A process that goes on fails the run.
    let s = w.next(Seen::GroupAlive);
    assert_eq!(s, Watch::KillGroup(KillReason::Survivor));
    assert_eq!(
        s.next(Seen::Done).next(Seen::Done),
        ended(None, false, Some(Detail::Survivor))
    );
    // So does a group of which nothing can be told.
    let s = w.next(Seen::Unknown).next(Seen::Done).next(Seen::Ended(Some(0)));
    assert_eq!(s, ended(None, false, Some(Detail::Unproven)));
    let s = Watch::start().next(Seen::Unknown);
    assert_eq!(s, Watch::KillGroup(KillReason::Unproven));
}

#[test]
fn a_plan_that_reaches_its_deadline() {
    let s = Watch::start().next(Seen::Deadline).next(Seen::Done);
    assert_eq!(
        s,
        Watch::Reap {
            reason: KillReason::Deadline,
            left: GRACE_POLLS,
            again: false
        }
    );
    // Even with status 0 it has not passed.
    let done = s.next(Seen::Ended(Some(0)));
    assert_eq!(done, ended(Some(0), true, None));
    assert!(matches!(done, Watch::Done(r) if !r.passed()));
    // A process that does not go is given up after two grace periods.
    let mut w = s;
    let mut polls = 0;
    loop {
        match w {
            Watch::Done(r) => {
                assert_eq!(r.status, None);
                assert!(r.timed_out);
                break;
            }
            Watch::Reap { .. } => {
                polls += 1;
                w = w.next(Seen::GoesOn);
            }
            Watch::KillPlan(_) => w = w.next(Seen::Done),
            other => panic!("{other:?}"),
        }
    }
    assert_eq!(polls, 2 * GRACE_POLLS);
}

#[test]
fn a_run_passes_only_with_status_zero() {
    let run = |status, timed_out, detail| CiRun {
        status,
        timed_out,
        detail,
    };
    assert!(run(Some(0), false, None).passed());
    assert!(!run(Some(1), false, None).passed());
    assert!(!run(None, false, None).passed());
    assert!(!run(Some(0), true, None).passed());
    assert!(!run(Some(0), false, Some(Detail::Survivor)).passed());
    assert!(!CiRun::not_started().passed());
}

#[test]
fn a_run_in_its_worktree() {
    let well = CiEvent::Went(Went::Well);
    let wrong = CiEvent::Went(Went::Wrong);
    let found = CiEvent::Went(Went::Found);
    let run = CiRun {
        status: Some(3),
        timed_out: false,
        detail: None,
    };
    let s = CiFlow::start().next(wrong).next(well).next(well);
    assert_eq!(s, CiFlow::RunPlan);
    let s = s.next(CiEvent::Ran(run));
    assert_eq!(s, CiFlow::Record(run));
    let removed = s.next(well).next(well);
    assert_eq!(
        removed,
        CiFlow::CheckDirectory {
            run,
            recorded: true
        }
    );
    let end = |left| CiFlow::Ended {
        run,
        recorded: true,
        left,
    };
    assert_eq!(s.next(well).next(wrong), end(Leftover::NotRemoved));
    assert_eq!(removed.next(found), end(Leftover::Directory));
    assert_eq!(removed.next(well).next(found), end(Leftover::Registered));
    assert_eq!(removed.next(well).next(wrong), end(Leftover::NotListed));
    assert_eq!(removed.next(well).next(well), end(Leftover::Nothing));
    assert_eq!(
        s.next(wrong),
        CiFlow::Remove {
            run,
            recorded: false
        }
    );
    assert_eq!(CiFlow::AddTree.next(wrong), CiFlow::NoTree);
    let mut s = CiFlow::start();
    for _ in 0..17 {
        s = s.next(wrong);
    }
    assert_eq!(s, CiFlow::NoPath(16));
    assert_eq!(
        no_tree_message(Some(16), "C"),
        "failed to create temporary worktree for CI run: could not reserve a unique temp worktree path after 16 attempts"
    );
    assert_eq!(
        no_tree_message(None, "C"),
        "failed to create temporary worktree for CI run: C"
    );
}

#[test]
fn what_is_told_of_a_run() {
    let run = |status, timed_out, detail| CiRun {
        status,
        timed_out,
        detail,
    };
    let green = run(Some(0), false, None);
    let tell = |r, append, left| conclude(9, CiPlan::CiSh, r, append, left, "C", "/t");
    assert_eq!(
        tell(green, None, Leftover::Nothing),
        Ok("CI run for PR #9 passed (.forge/ci.sh)".to_string())
    );
    for (result, error) in [
        (
            tell(run(Some(3), false, None), None, Leftover::Nothing),
            "CI run for PR #9 failed (.forge/ci.sh): exited with status 3",
        ),
        (
            tell(run(Some(-1), false, None), None, Leftover::Nothing),
            "CI run for PR #9 failed (.forge/ci.sh): exited with status -1",
        ),
        (
            tell(CiRun::not_started(), None, Leftover::Nothing),
            "CI run for PR #9 failed (.forge/ci.sh)",
        ),
        (
            tell(run(None, true, None), None, Leftover::Nothing),
            "CI run for PR #9 failed (.forge/ci.sh): timed out",
        ),
        (
            tell(run(None, false, Some(Detail::Survivor)), None, Leftover::Nothing),
            "CI run for PR #9 failed (.forge/ci.sh): left a background process running",
        ),
        (
            tell(run(None, false, Some(Detail::Unproven)), None, Leftover::Nothing),
            "CI run for PR #9 failed (.forge/ci.sh): could not prove the process group is empty",
        ),
        (
            tell(green, Some("E"), Leftover::Nothing),
            "CI run completed but recording the CI Check failed: E",
        ),
        (
            tell(green, Some("E"), Leftover::Directory),
            "CI run completed but recording the CI Check failed: E; temp worktree cleanup failed: temp worktree directory still exists (worktree left at /t)",
        ),
        (
            tell(green, None, Leftover::NotRemoved),
            "CI run recorded success but temp worktree cleanup failed: temp worktree removal failed: C (worktree left at /t)",
        ),
        (
            tell(run(Some(1), false, None), None, Leftover::NotListed),
            "CI run recorded failed but temp worktree cleanup failed: worktree verification failed: C (worktree left at /t)",
        ),
        (
            tell(green, None, Leftover::Registered),
            "CI run recorded success but temp worktree cleanup failed: temp worktree still registered (worktree left at /t)",
        ),
    ] {
        assert_eq!(result, Err(error.to_string()));
    }
}
