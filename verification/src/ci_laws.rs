//! What a CI run does: the plan it takes, how it is watched, and what it comes to.

use crate::ci;
use crate::ci::{
    CiEvent, CiFlow, CiPlan, CiRun, Detail, Entry, Justfile, KillReason, Leftover, Seen, Watch,
};
use crate::merge::Went;
use crate::passages;
use crate::text;
use vstd::prelude::*;

verus! {

// ---------------------------------------------------------------------------
// The plan

/// What stands at a path of the snapshot, among the paths that a plan may have.
pub open spec fn entry_at(
    path: Seq<char>,
    ci_sh: Entry,
    lower: Entry,
    upper: Entry,
    hidden: Entry,
) -> Entry {
    if path == ".forge/ci.sh"@ {
        ci_sh
    } else if path == "justfile"@ {
        lower
    } else if path == "Justfile"@ {
        upper
    } else if path == ".justfile"@ {
        hidden
    } else {
        Entry::Absent
    }
}

proof fn lemma_plan_paths()
    ensures
        ".forge/ci.sh"@.len() == 12,
        "justfile"@.len() == 8 && "justfile"@[0] == 'j',
        "Justfile"@.len() == 8 && "Justfile"@[0] == 'J',
        ".justfile"@.len() == 9,
{
    reveal_strlit(".forge/ci.sh");
    reveal_strlit("justfile");
    reveal_strlit("Justfile");
    reveal_strlit(".justfile");
}

/// A plan that a snapshot selects is a regular file of the snapshot at the path of the
/// plan, and different plans have different paths.
pub proof fn law_plan_stands_in_the_snapshot(
    ci_sh: Entry,
    lower: Entry,
    upper: Entry,
    hidden: Entry,
    p: CiPlan,
    q: CiPlan,
)
    ensures
        ci::plan_of(ci_sh, lower, upper, hidden) == Ok::<CiPlan, Seq<char>>(p) ==> entry_at(
            ci::plan_path(p),
            ci_sh,
            lower,
            upper,
            hidden,
        ) == Entry::Regular,
        ci::plan_path(p) == ci::plan_path(q) ==> p == q,
{
    lemma_plan_paths();
}

/// What a plan runs is the file that the snapshot selected it by: the shell gets the path
/// of the script, and `just` the path of the justfile within the worktree, a fixed shell,
/// and the recipe to run.
pub proof fn law_plan_runs_its_own_file(p: CiPlan, worktree: Seq<char>)
    ensures
        p == CiPlan::CiSh ==> ci::plan_args(p, worktree) == seq![ci::plan_path(p)],
        p is JustCheck ==> {
            let args = ci::plan_args(p, worktree);
            &&& args.len() == 5
            &&& args[0] == "--justfile"@
            &&& args[1] == worktree + seq!['/'] + ci::plan_path(p)
            &&& args[2] == "--shell"@ && args[3] == "/bin/sh"@
            &&& args[4] == "check"@
        },
{
    reveal_strlit("/");
    assert("/"@ =~= seq!['/']);
}

/// The file that `just` is given is one that the snapshot holds as a regular file, and no
/// other of its plan files comes before it.
pub proof fn law_just_gets_the_selected_file(
    ci_sh: Entry,
    lower: Entry,
    upper: Entry,
    hidden: Entry,
    worktree: Seq<char>,
    name: Seq<char>,
)
    requires
        ci::plan_of(ci_sh, lower, upper, hidden) matches Ok(p) && p is JustCheck && ci::plan_args(
            p,
            worktree,
        )[1] == worktree + seq!['/'] + name,
    ensures
        entry_at(name, ci_sh, lower, upper, hidden) == Entry::Regular,
        ci_sh == Entry::Absent,
        name == "Justfile"@ || name == ".justfile"@ ==> lower == Entry::Absent,
        name == ".justfile"@ ==> upper == Entry::Absent,
{
    lemma_plan_paths();
    let p = ci::plan_of(ci_sh, lower, upper, hidden)->Ok_0;
    law_plan_runs_its_own_file(p, worktree);
    let a = worktree + seq!['/'] + name;
    let b = worktree + seq!['/'] + ci::plan_path(p);
    let n = worktree.len() as int + 1;
    assert(a.skip(n) =~= name);
    assert(b.skip(n) =~= ci::plan_path(p));
    law_plan_stands_in_the_snapshot(ci_sh, lower, upper, hidden, p, p);
}

/// The script comes first, and then the first of the justfiles that is there; what is not
/// a regular file is refused by its name, a link as a link, and without any of them there
/// is no plan.
pub proof fn law_first_plan_file_decides(ci_sh: Entry, lower: Entry, upper: Entry, hidden: Entry)
    ensures
        ({
            let r = ci::plan_of(ci_sh, lower, upper, hidden);
            let absent = Entry::Absent;
            &&& ci_sh != absent ==> decided(r, ci_sh, CiPlan::CiSh, ".forge/ci.sh"@)
            &&& ci_sh == absent && lower != absent ==> decided(
                r,
                lower,
                CiPlan::JustCheck(Justfile::Lower),
                "justfile"@,
            )
            &&& ci_sh == absent && lower == absent && upper != absent ==> decided(
                r,
                upper,
                CiPlan::JustCheck(Justfile::Upper),
                "Justfile"@,
            )
            &&& ci_sh == absent && lower == absent && upper == absent && hidden != absent
                ==> decided(r, hidden, CiPlan::JustCheck(Justfile::Hidden), ".justfile"@)
            &&& ci_sh == absent && lower == absent && upper == absent && hidden == absent
                ==> r is Err
        }),
{
    lemma_refused(".forge/ci.sh"@, ci_sh, "F-001"@);
    lemma_refused("justfile"@, lower, "F-012"@);
    lemma_refused("Justfile"@, upper, "F-012"@);
    lemma_refused(".justfile"@, hidden, "F-012"@);
}

/// Does an entry decide for its plan, or is it refused by its name?
pub open spec fn decided(
    r: Result<CiPlan, Seq<char>>,
    entry: Entry,
    plan: CiPlan,
    name: Seq<char>,
) -> bool {
    &&& entry == Entry::Regular ==> r == Ok::<CiPlan, Seq<char>>(plan)
    &&& entry != Entry::Regular ==> r is Err && passages::holds(r->Err_0, name)
    &&& entry == Entry::Symlink ==> passages::holds(r->Err_0, ": symlink "@)
    &&& entry == Entry::Other ==> passages::holds(r->Err_0, ": not a regular file "@)
}

proof fn lemma_refused(name: Seq<char>, entry: Entry, code: Seq<char>)
    ensures
        passages::holds(ci::refused_entry(name, entry, code), name),
        entry == Entry::Symlink ==> passages::holds(
            ci::refused_entry(name, entry, code),
            ": symlink "@,
        ),
        entry == Entry::Other ==> passages::holds(
            ci::refused_entry(name, entry, code),
            ": not a regular file "@,
        ),
{
    reveal_strlit(": symlink (");
    reveal_strlit(": symlink ");
    reveal_strlit(": not a regular file (");
    reveal_strlit(": not a regular file ");
    let e = ci::refused_entry(name, entry, code);
    let why = if entry == Entry::Symlink {
        ": symlink ("@
    } else {
        ": not a regular file ("@
    };
    assert(e =~= "refusing "@ + name + (why + code + ")"@));
    passages::lemma_holds("refusing "@, name, why + code + ")"@);
    let said = why.drop_last();
    assert(entry == Entry::Symlink ==> said =~= ": symlink "@);
    assert(entry == Entry::Other ==> said =~= ": not a regular file "@);
    let rest = seq![why.last()] + code + ")"@;
    assert(why =~= said + seq![why.last()]);
    assert(e =~= ("refusing "@ + name) + said + rest);
    passages::lemma_holds("refusing "@ + name, said, rest);
}

/// A file mode of a Git tree is that of a regular file, executable or not, that of a link,
/// or that of something else; nothing stands where there is no mode.
pub proof fn law_file_modes(mode: i32)
    ensures
        ci::entry_of(None) == Entry::Absent,
        ci::entry_of(Some(mode)) != Entry::Absent,
        ci::entry_of(Some(mode)) == Entry::Regular <==> mode == 33188 || mode == 33261 || mode
            == 33204,
        ci::entry_of(Some(mode)) == Entry::Symlink <==> mode == 40960,
{
}

/// A passed or failed check is recorded under the name of the plan, which tells the script
/// from the justfiles.
pub proof fn law_plan_labels(j: Justfile)
    ensures
        ci::plan_label(CiPlan::CiSh) == ci::plan_path(CiPlan::CiSh),
        ci::plan_label(CiPlan::JustCheck(j)) == "just check"@,
        ci::plan_label(CiPlan::JustCheck(j)) != ci::plan_label(CiPlan::CiSh),
{
    reveal_strlit("just check");
    lemma_plan_paths();
    assert("just check"@.len() == 10);
}

// ---------------------------------------------------------------------------
// The deadline

/// The configured number of seconds counts where it lies from a second to a day; a smaller
/// one counts as a second, a larger one as a day, and what is no number as if nothing were
/// configured.
pub proof fn law_deadline(n: nat, s: Seq<char>)
    requires
        n <= u64::MAX,
    ensures
        1 <= n <= 86_400 ==> ci::timeout_of(Some(text::decimal(n))) == n,
        n == 0 ==> ci::timeout_of(Some(text::decimal(n))) == 1,
        n > 86_400 ==> ci::timeout_of(Some(text::decimal(n))) == 86_400,
        ci::timeout_of(None) == 300,
        crate::cli::unsigned_of(s) is None ==> ci::timeout_of(Some(s)) == ci::timeout_of(None),
{
    text::law_decimal_reads_back(n);
    assert(text::is_digit(text::decimal(n)[0]));
}

// ---------------------------------------------------------------------------
// The environment

/// The variables that are kept from a plan, beside exported functions.
pub open spec fn withheld() -> Seq<Seq<char>> {
    seq![
        "LD_PRELOAD"@,
        "LD_AUDIT"@,
        "LD_LIBRARY_PATH"@,
        "LD_TRACE_LOADED_OBJECTS"@,
        "LD_DEBUG"@,
        "DYLD_INSERT_LIBRARIES"@,
        "DYLD_FORCE_TEXT_SEGMENT"@,
        "DYLD_LIBRARY_PATH"@,
        "DYLD_FRAMEWORK_PATH"@,
        "DYLD_FALLBACK_FRAMEWORK_PATH"@,
        "DYLD_VERSIONED_FRAMEWORK_PATH"@,
        "DYLD_FALLBACK_LIBRARY_PATH"@,
        "DYLD_VERSIONED_LIBRARY_PATH"@,
        "DYLD_IMAGE_SUFFIX"@,
        "DYLD_ROOT_PATH"@,
        "GIT_DIR"@,
        "GIT_WORK_TREE"@,
        "GIT_INDEX_FILE"@,
        "GIT_OBJECT_DIRECTORY"@,
        "GIT_ALTERNATE_OBJECT_DIRECTORIES"@,
        "GIT_COMMON_DIR"@,
        "GIT_NAMESPACE"@,
        "GIT_CONFIG"@,
        "GIT_CONFIG_COUNT"@,
        "GIT_CONFIG_PARAMETERS"@,
        "GIT_ATTR_SOURCE"@,
        "GIT_EXTERNAL_DIFF"@,
        "GIT_EXTERNAL_DIFF_TRUST_EXIT_CODE"@,
        "GIT_REPLACE_REF_BASE"@,
        "GIT_SHALLOW_FILE"@,
        "GIT_CEILING_DIRECTORIES"@,
        "GIT_SSH_COMMAND"@,
        "GIT_SSH"@,
        "GIT_ASKPASS"@,
        "GIT_PROXY_COMMAND"@,
        "GIT_EXEC_PATH"@,
        "BASH_ENV"@,
        "ENV"@,
        "ZDOTDIR"@,
        "JUST_ALLOW_MISSING"@,
        "JUST_NO_DEPS"@,
        "JUST_WORKING_DIRECTORY"@,
        "JUST_DOTENV_COMMAND"@,
        "CDPATH"@,
        "IFS"@,
        "SHELLOPTS"@,
        "BASHOPTS"@,
        "POSIXLY_CORRECT"@,
        "SHELL"@,
    ]
}

/// A plan sees none of the variables that would make the loader, Git, a shell or `just`
/// run something else, and no exported function; it sees every other variable.
pub proof fn law_plan_environment(s: Seq<char>, name: Seq<char>)
    ensures
        withheld().contains(s) ==> ci::kept_from_plan(s),
        ci::kept_from_plan("BASH_FUNC_"@ + name + "%%"@),
        ci::kept_from_plan(s) ==> withheld().contains(s) || (text::starts_with(s, "BASH_FUNC_"@)
            && text::ends_with(s, "%%"@)),
        ci::is_loader_var(s) <==> exists|k: int| 0 <= k < 15 && #[trigger] withheld()[k] == s,
{
    let f = "BASH_FUNC_"@ + name + "%%"@;
    assert(f.take("BASH_FUNC_"@.len() as int) =~= "BASH_FUNC_"@);
    assert(f.skip(f.len() - "%%"@.len()) =~= "%%"@);
    let w = withheld();
    assert(w.len() == 49);
    if w.contains(s) {
        let k = choose|k: int| 0 <= k < w.len() && w[k] == s;
        assert(w[k] == s);
        assert(ci::kept_from_plan(w[k])) by {
            lemma_withheld(k);
        }
    }
    if exists|k: int| 0 <= k < 15 && #[trigger] withheld()[k] == s {
        let k = choose|k: int| 0 <= k < 15 && #[trigger] withheld()[k] == s;
        lemma_withheld(k);
    }
    if ci::kept_from_plan(s) && !ci::is_bash_function(s) {
        lemma_kept_is_listed(s);
    }
    if ci::is_loader_var(s) {
        lemma_kept_is_listed(s);
    }
}

proof fn lemma_withheld(k: int)
    requires
        0 <= k < 49,
    ensures
        ci::kept_from_plan(withheld()[k]),
        k < 15 ==> ci::is_loader_var(withheld()[k]),
{
    let s = withheld()[k];
    if k < 15 {
        assert(ci::is_loader_var(s));
    } else if k < 36 {
        assert(ci::is_git_var(s));
    } else {
        assert(ci::is_shell_var(s));
    }
}

#[verifier::rlimit(40)]
proof fn lemma_kept_is_listed(s: Seq<char>)
    requires
        ci::is_loader_var(s) || ci::is_git_var(s) || ci::is_shell_var(s),
    ensures
        withheld().contains(s),
        ci::is_loader_var(s) ==> exists|k: int| 0 <= k < 15 && #[trigger] withheld()[k] == s,
{
    let w = withheld();
    assert(w[0] == "LD_PRELOAD"@ && w[1] == "LD_AUDIT"@ && w[2] == "LD_LIBRARY_PATH"@ && w[3]
        == "LD_TRACE_LOADED_OBJECTS"@ && w[4] == "LD_DEBUG"@ && w[5] == "DYLD_INSERT_LIBRARIES"@
        && w[6] == "DYLD_FORCE_TEXT_SEGMENT"@ && w[7] == "DYLD_LIBRARY_PATH"@ && w[8]
        == "DYLD_FRAMEWORK_PATH"@ && w[9] == "DYLD_FALLBACK_FRAMEWORK_PATH"@ && w[10]
        == "DYLD_VERSIONED_FRAMEWORK_PATH"@ && w[11] == "DYLD_FALLBACK_LIBRARY_PATH"@ && w[12]
        == "DYLD_VERSIONED_LIBRARY_PATH"@ && w[13] == "DYLD_IMAGE_SUFFIX"@ && w[14]
        == "DYLD_ROOT_PATH"@);
    assert(w[15] == "GIT_DIR"@ && w[16] == "GIT_WORK_TREE"@ && w[17] == "GIT_INDEX_FILE"@ && w[18]
        == "GIT_OBJECT_DIRECTORY"@ && w[19] == "GIT_ALTERNATE_OBJECT_DIRECTORIES"@ && w[20]
        == "GIT_COMMON_DIR"@ && w[21] == "GIT_NAMESPACE"@ && w[22] == "GIT_CONFIG"@ && w[23]
        == "GIT_CONFIG_COUNT"@ && w[24] == "GIT_CONFIG_PARAMETERS"@ && w[25] == "GIT_ATTR_SOURCE"@
        && w[26] == "GIT_EXTERNAL_DIFF"@ && w[27] == "GIT_EXTERNAL_DIFF_TRUST_EXIT_CODE"@ && w[28]
        == "GIT_REPLACE_REF_BASE"@ && w[29] == "GIT_SHALLOW_FILE"@ && w[30]
        == "GIT_CEILING_DIRECTORIES"@ && w[31] == "GIT_SSH_COMMAND"@ && w[32] == "GIT_SSH"@ && w[33]
        == "GIT_ASKPASS"@ && w[34] == "GIT_PROXY_COMMAND"@ && w[35] == "GIT_EXEC_PATH"@);
    assert(w[36] == "BASH_ENV"@ && w[37] == "ENV"@ && w[38] == "ZDOTDIR"@ && w[39]
        == "JUST_ALLOW_MISSING"@ && w[40] == "JUST_NO_DEPS"@ && w[41] == "JUST_WORKING_DIRECTORY"@
        && w[42] == "JUST_DOTENV_COMMAND"@ && w[43] == "CDPATH"@ && w[44] == "IFS"@ && w[45]
        == "SHELLOPTS"@ && w[46] == "BASHOPTS"@ && w[47] == "POSIXLY_CORRECT"@ && w[48]
        == "SHELL"@);
    assert(w.len() == 49);
}

// ---------------------------------------------------------------------------
// Where `just` is found

/// `just` is looked for under its own name at absolute places only; an absolute home
/// directory adds two places behind those of the system, and any other adds none.
pub proof fn law_just_places(home: Seq<char>)
    ensures
        forall|k: int|
            0 <= k < ci::just_places(Some(home)).len() ==> {
                let p = #[trigger] ci::just_places(Some(home))[k];
                &&& p.len() > 0 && p[0] == '/'
                &&& text::ends_with(p, "/just"@)
            },
        ci::just_places(Some(home)).take(3) == ci::just_places(None),
        ci::just_places(None) == seq![
            "/usr/bin/just"@,
            "/usr/local/bin/just"@,
            "/opt/homebrew/bin/just"@,
        ],
        !(home.len() > 0 && home[0] == '/') ==> ci::just_places(Some(home)) == ci::just_places(None),
        home.len() > 0 && home[0] == '/' ==> ci::just_places(Some(home)).len() == 5
            && ci::just_places(Some(home))[3] == home + "/.cargo/bin/just"@ && ci::just_places(
            Some(home),
        )[4] == home + "/.local/bin/just"@,
{
    reveal_strlit("/usr/bin/just");
    reveal_strlit("/usr/local/bin/just");
    reveal_strlit("/opt/homebrew/bin/just");
    reveal_strlit("/.cargo/bin/just");
    reveal_strlit("/.local/bin/just");
    reveal_strlit("/just");
    let j = "/just"@;
    let all = ci::just_places(Some(home));
    let system = seq!["/usr/bin/just"@, "/usr/local/bin/just"@, "/opt/homebrew/bin/just"@];
    assert(all.take(3) =~= system);
    assert(ci::just_places(None) =~= system);
    assert("/usr/bin/just"@.skip(8) =~= j);
    assert("/usr/local/bin/just"@.skip(14) =~= j);
    assert("/opt/homebrew/bin/just"@.skip(17) =~= j);
    if home.len() > 0 && home[0] == '/' {
        let a = home + "/.cargo/bin/just"@;
        let b = home + "/.local/bin/just"@;
        assert(all[3] == a && all[4] == b);
        assert(a.skip(a.len() - 5) =~= j);
        assert(b.skip(b.len() - 5) =~= j);
        assert(a[0] == '/' && b[0] == '/');
        assert(all.len() == 5);
    } else {
        assert(all =~= system);
    }
    assert forall|k: int| 0 <= k < all.len() implies {
        let p = #[trigger] all[k];
        &&& p.len() > 0 && p[0] == '/'
        &&& text::ends_with(p, "/just"@)
    } by {
        assert(k == 0 || k == 1 || k == 2 || k == 3 || k == 4);
        if k < 3 {
            assert(all[k] == system[k]);
        }
    }
}

// ---------------------------------------------------------------------------
// Watching

/// A plan that ends by itself, with nothing of it left, counts with the status that it
/// ended with: passed for 0, and failed for every other one and for none.
pub proof fn law_plan_counts_by_its_status(status: Option<i32>)
    ensures
        ci::watch_after(ci::watch_after(Watch::Poll, Seen::Ended(status)), Seen::GroupEmpty)
            == Watch::Done(CiRun { status, timed_out: false, detail: None }),
        ci::run_passed(CiRun { status, timed_out: false, detail: None }) <==> status == Some(0i32),
        ci::watch_after(Watch::Poll, Seen::GoesOn) == Watch::Poll,
{
}

/// Why the processes of a plan are being killed.
pub open spec fn kill_reason(w: Watch) -> Option<KillReason> {
    match w {
        Watch::KillGroup(reason) => Some(reason),
        Watch::Collect => Some(KillReason::Survivor),
        Watch::Reap { reason, left, again } => Some(reason),
        Watch::KillPlan(reason) => Some(reason),
        _ => None,
    }
}

/// Processes are killed where the deadline has come, where the plan has left one behind,
/// and where it cannot be told; for each of these the whole group is killed first.
pub proof fn law_what_is_killed(status: Option<i32>)
    ensures
        ci::watch_after(Watch::Poll, Seen::Deadline) == Watch::KillGroup(KillReason::Deadline),
        ci::watch_after(Watch::Poll, Seen::Unknown) == Watch::KillGroup(KillReason::Unproven),
        ci::watch_after(Watch::Probe(status), Seen::GroupAlive) == Watch::KillGroup(
            KillReason::Survivor,
        ),
        ci::watch_after(Watch::Probe(status), Seen::Unknown) == Watch::KillGroup(
            KillReason::Unproven,
        ),
{
}

/// Why a run was killed is what is recorded of it: that it reached its deadline, that it
/// left a process behind, or that this could not be told. No killed run passes.
pub proof fn law_killed_runs_fail(w: Watch, seen: Seen)
    requires
        kill_reason(w) is Some,
    ensures
        match ci::watch_after(w, seen) {
            Watch::Done(r) => {
                &&& !ci::run_passed(r)
                &&& r.timed_out <==> kill_reason(w) == Some(KillReason::Deadline)
                &&& r.detail == Some(Detail::Survivor) <==> kill_reason(w) == Some(
                    KillReason::Survivor,
                )
                &&& r.detail == Some(Detail::Unproven) <==> kill_reason(w) == Some(
                    KillReason::Unproven,
                )
            },
            n => kill_reason(n) == kill_reason(w),
        },
{
}

/// A killed plan that goes on is polled again and again, then killed itself and polled as
/// often once more, and is then given up.
pub proof fn law_killed_plans_are_given_up(reason: KillReason, left: u32, again: bool)
    ensures
        left > 1 ==> ci::watch_after(
            Watch::Reap { reason, left, again },
            Seen::GoesOn,
        ) == (Watch::Reap { reason, left: (left - 1) as u32, again }),
        left <= 1 && !again ==> ci::watch_after(
            Watch::Reap { reason, left, again },
            Seen::GoesOn,
        ) == Watch::KillPlan(reason),
        left <= 1 && again ==> ci::watch_after(
            Watch::Reap { reason, left, again },
            Seen::GoesOn,
        ) is Done,
        ci::watch_after(Watch::KillPlan(reason), Seen::Done) == (Watch::Reap {
            reason,
            left: 25,
            again: true,
        }),
        reason != KillReason::Survivor ==> ci::watch_after(
            Watch::KillGroup(reason),
            Seen::Done,
        ) == (Watch::Reap { reason, left: 25, again: false }),
{
}

// ---------------------------------------------------------------------------
// The run as a whole

/// The state after `n` pieces of work that went well, where the plan came to `run`.
pub open spec fn flow_well(run: CiRun, attempt: u32, n: nat) -> CiFlow
    decreases n,
{
    if n == 0 {
        CiFlow::Reserve { attempt }
    } else {
        let before = flow_well(run, attempt, (n - 1) as nat);
        ci::flow_after(
            before,
            if before is RunPlan {
                CiEvent::Ran(run)
            } else {
                CiEvent::Went(Went::Well)
            },
        )
    }
}

/// A run whose work goes well adds a worktree, runs the plan, records how it ended, removes
/// the worktree, and makes sure that it is gone; it ends with the outcome of the plan,
/// recorded, and nothing left.
pub proof fn law_a_run_goes_through(run: CiRun, attempt: u32)
    ensures
        flow_well(run, attempt, 1) == CiFlow::AddTree,
        flow_well(run, attempt, 2) == CiFlow::RunPlan,
        flow_well(run, attempt, 3) == CiFlow::Record(run),
        flow_well(run, attempt, 4) == (CiFlow::Remove { run, recorded: true }),
        flow_well(run, attempt, 5) == (CiFlow::CheckDirectory { run, recorded: true }),
        flow_well(run, attempt, 6) == (CiFlow::ListTrees { run, recorded: true }),
        flow_well(run, attempt, 7) == (CiFlow::Ended {
            run,
            recorded: true,
            left: Leftover::Nothing,
        }),
{
    reveal_with_fuel(flow_well, 8);
}

/// What does not go well is told at the end: a check that was not recorded, and a worktree
/// that could not be removed, is still there, is still registered, or cannot be told of.
pub proof fn law_what_goes_wrong_is_kept(run: CiRun, recorded: bool, went: Went)
    requires
        went != Went::Well,
    ensures
        ci::flow_after(CiFlow::Record(run), CiEvent::Went(went)) == (CiFlow::Remove {
            run,
            recorded: false,
        }),
        ci::flow_after(CiFlow::Remove { run, recorded }, CiEvent::Went(went)) == (CiFlow::Ended {
            run,
            recorded,
            left: Leftover::NotRemoved,
        }),
        ci::flow_after(CiFlow::CheckDirectory { run, recorded }, CiEvent::Went(went)) == (
        CiFlow::Ended { run, recorded, left: Leftover::Directory }),
        ci::flow_after(CiFlow::ListTrees { run, recorded }, CiEvent::Went(went)) == (CiFlow::Ended {
            run,
            recorded,
            left: if went == Went::Found {
                Leftover::Registered
            } else {
                Leftover::NotListed
            },
        }),
        ci::flow_after(CiFlow::AddTree, CiEvent::Went(went)) == CiFlow::NoTree,
{
}

/// The paths that are tried: each failure leads to the next, up to the last retry.
pub proof fn law_ci_paths_are_retried(attempt: u32, went: Went)
    requires
        went != Went::Well,
    ensures
        attempt < 16 ==> ci::flow_after(
            CiFlow::Reserve { attempt },
            CiEvent::Went(went),
        ) == (CiFlow::Reserve { attempt: (attempt + 1) as u32 }),
        attempt >= 16 ==> ci::flow_after(CiFlow::Reserve { attempt }, CiEvent::Went(went))
            == CiFlow::NoPath(attempt),
{
}

// ---------------------------------------------------------------------------
// What the user is told

/// What is told of a run names the pull request and the plan, that it passed or that it
/// failed, and why: the deadline, a process that was left, or the exit status.
pub proof fn law_outcome_is_told(id: int, plan: CiPlan, run: CiRun)
    ensures
        ({
            let told = ci::conclusion(id, plan, run, None, Leftover::Nothing, seq![], seq![]);
            let name = "CI run for PR #"@ + text::decimal(id as nat);
            let label = match plan {
                CiPlan::CiSh => ".forge/ci.sh"@,
                CiPlan::JustCheck(_) => "just check"@,
            };
            &&& ci::run_passed(run) ==> told == Ok::<Seq<char>, Seq<char>>(
                name + " passed ("@ + label + ")"@,
            )
            &&& !ci::run_passed(run) ==> told is Err && text::starts_with(
                told->Err_0,
                name + " failed ("@ + label + ")"@,
            )
            &&& run.timed_out ==> text::ends_with(told->Err_0, ": timed out"@)
            &&& !run.timed_out && run.detail == Some(Detail::Survivor) ==> text::ends_with(
                told->Err_0,
                ": left a background process running"@,
            )
            &&& !run.timed_out && run.detail == Some(Detail::Unproven) ==> text::ends_with(
                told->Err_0,
                ": could not prove the process group is empty"@,
            )
            &&& !run.timed_out && run.detail is None && run.status is Some && run.status != Some(
                0i32,
            ) ==> text::ends_with(
                told->Err_0,
                ": exited with status "@ + text::signed_decimal(run.status.unwrap() as int),
            )
        }),
{
    reveal_strlit("CI run for ");
    reveal_strlit("PR #");
    reveal_strlit("CI run for PR #");
    let d = text::decimal(id as nat);
    let name = "CI run for PR #"@ + d;
    assert("CI run for "@ + ("PR #"@ + d) =~= name);
    let told = ci::conclusion(id, plan, run, None, Leftover::Nothing, seq![], seq![]);
    if !ci::run_passed(run) {
        let head = name + " failed ("@ + ci::plan_label(plan) + ")"@;
        let why = ci::reason_text(run);
        let e = head + why;
        assert(told->Err_0 =~= e);
        assert(e.take(head.len() as int) =~= head);
        assert(e.skip(e.len() - why.len()) =~= why);
    }
}

/// What is left of a worktree is told before anything else, with its path, what Git said,
/// and how the plan ended; an outcome that could not be recorded is told with the reason.
pub proof fn law_trouble_is_told(
    id: int,
    plan: CiPlan,
    run: CiRun,
    append_error: Option<Seq<char>>,
    left: Leftover,
    cause: Seq<char>,
    tree: Seq<char>,
)
    ensures
        ({
            let told = ci::conclusion(id, plan, run, append_error, left, cause, tree);
            &&& left != Leftover::Nothing ==> told is Err && passages::holds(told->Err_0, tree)
            &&& left == Leftover::NotRemoved || left == Leftover::NotListed ==> passages::holds(
                told->Err_0,
                cause,
            )
            &&& append_error matches Some(e) ==> told is Err && passages::holds(told->Err_0, e)
            &&& left != Leftover::Nothing && append_error is None ==> text::starts_with(
                told->Err_0,
                if ci::run_passed(run) {
                    "CI run recorded success"@
                } else {
                    "CI run recorded failed"@
                },
            )
        }),
{
    let told = ci::conclusion(id, plan, run, append_error, left, cause, tree);
    let first = "CI run completed but recording the CI Check failed: "@;
    if left != Leftover::Nothing {
        let head = match append_error {
            Some(e) => first + e + ";"@,
            None => "CI run recorded "@ + ci::status_text(ci::run_passed(run)) + " but"@,
        };
        let mid = " temp worktree cleanup failed: "@;
        let what = match left {
            Leftover::Nothing => seq![],
            Leftover::NotRemoved => "temp worktree removal failed: "@ + cause,
            Leftover::Directory => "temp worktree directory still exists"@,
            Leftover::NotListed => "worktree verification failed: "@ + cause,
            Leftover::Registered => "temp worktree still registered"@,
        };
        let at = " (worktree left at "@;
        let e = head + mid + (what + at + tree + ")"@);
        assert(told->Err_0 == e);
        assert(e =~= (head + mid + what + at) + tree + ")"@);
        passages::lemma_holds(head + mid + what + at, tree, ")"@);
        if left == Leftover::NotRemoved {
            let a = "temp worktree removal failed: "@;
            assert(e =~= (head + mid + a) + cause + (at + tree + ")"@));
            passages::lemma_holds(head + mid + a, cause, at + tree + ")"@);
        }
        if left == Leftover::NotListed {
            let a = "worktree verification failed: "@;
            assert(e =~= (head + mid + a) + cause + (at + tree + ")"@));
            passages::lemma_holds(head + mid + a, cause, at + tree + ")"@);
        }
        match append_error {
            Some(x) => {
                assert(e =~= first + x + (";"@ + mid + (what + at + tree + ")"@)));
                passages::lemma_holds(first, x, ";"@ + mid + (what + at + tree + ")"@));
            },
            None => {
                reveal_strlit("CI run recorded ");
                reveal_strlit("success");
                reveal_strlit("failed");
                reveal_strlit("CI run recorded success");
                reveal_strlit("CI run recorded failed");
                let p = if ci::run_passed(run) {
                    "CI run recorded success"@
                } else {
                    "CI run recorded failed"@
                };
                assert("CI run recorded "@ + ci::status_text(ci::run_passed(run)) =~= p);
                assert(e =~= p + (" but"@ + mid + (what + at + tree + ")"@)));
                assert(e.take(p.len() as int) =~= p);
            },
        }
    } else if append_error is Some {
        let x = append_error.unwrap();
        assert(told->Err_0 =~= first + x + seq![]);
        passages::lemma_holds(first, x, seq![]);
    }
}

/// A run for which there was no worktree is told with what Git said, or with the number of
/// the retries.
pub proof fn law_no_tree_is_told(n: u32, cause: Seq<char>)
    ensures
        text::ends_with(ci::no_tree_text(None, cause), cause),
        passages::holds(ci::no_tree_text(Some(n), cause), text::decimal(n as nat)),
{
    let a = "failed to create temporary worktree for CI run: "@;
    let e = ci::no_tree_text(None, cause);
    assert(e.skip(e.len() - cause.len()) =~= cause);
    let b = "could not reserve a unique temp worktree path after "@;
    let d = text::decimal(n as nat);
    assert(ci::no_tree_text(Some(n), cause) =~= (a + b) + d + " attempts"@);
    passages::lemma_holds(a + b, d, " attempts"@);
}

} // verus!
