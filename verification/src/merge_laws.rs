//! What a merge does, from its command line to what the user is told.

use crate::cli_laws;
use crate::event;
use crate::merge;
use crate::merge::{Clean, Fault, Run, Step, Strategy, Went};
use crate::oid;
use crate::oid::Oid;
use crate::passages;
use crate::refs;
use crate::text;
use vstd::prelude::*;

verus! {

// ---------------------------------------------------------------------------
// Arguments

/// The flag of a strategy.
pub open spec fn strategy_flag(s: Strategy) -> Seq<char> {
    match s {
        Strategy::Merge => "--merge"@,
        Strategy::Squash => "--squash"@,
        Strategy::Rebase => "--rebase"@,
    }
}

proof fn lemma_merge_flags()
    ensures
        "--merge"@.len() == 7 && "--merge"@[0] == '-' && "--merge"@[2] == 'm',
        "--squash"@.len() == 8 && "--squash"@[0] == '-' && "--squash"@[2] == 's',
        "--rebase"@.len() == 8 && "--rebase"@[0] == '-' && "--rebase"@[2] == 'r',
        "-h"@.len() == 2 && "-h"@[0] == '-',
        "--help"@.len() == 6 && "--help"@[0] == '-',
{
    reveal_strlit("--merge");
    reveal_strlit("--squash");
    reveal_strlit("--rebase");
    reveal_strlit("-h");
    reveal_strlit("--help");
}

/// A merge is asked for by the number of the pull request, as a merge commit unless a flag
/// names another strategy, before the number or behind it.
pub proof fn law_merge_is_asked_for(n: nat, s: Strategy)
    requires
        1 <= n <= u64::MAX,
    ensures
        merge::merge_request(seq![text::decimal(n)]) == Ok::<merge::MergeRequest, Seq<char>>(
            merge::MergeRequest::Merge(n as int, Strategy::Merge),
        ),
        merge::merge_request(seq![text::decimal(n), strategy_flag(s)]) == Ok::<
            merge::MergeRequest,
            Seq<char>,
        >(merge::MergeRequest::Merge(n as int, s)),
        merge::merge_request(seq![strategy_flag(s), text::decimal(n)]) == Ok::<
            merge::MergeRequest,
            Seq<char>,
        >(merge::MergeRequest::Merge(n as int, s)),
{
    lemma_merge_flags();
    cli_laws::law_number_reads_back(n);
    text::law_decimal_reads_back(n);
    let d = text::decimal(n);
    assert(text::is_digit(d[0]));
    reveal_with_fuel(merge::merge_args_from, 4);
    assert(merge::strategy_of(d) is None);
    assert(merge::strategy_of(strategy_flag(s)) == Some(s));
}

/// A second strategy, a second number, an unknown option and a missing number are refused;
/// help is given wherever it is asked for.
pub proof fn law_merge_refuses(n: nat, s: Strategy, t: Strategy, x: Seq<char>, rest: Seq<Seq<char>>)
    requires
        1 <= n <= u64::MAX,
    ensures
        merge::merge_request(seq![]) is Err,
        merge::merge_request(seq![strategy_flag(s)]) is Err,
        merge::merge_request(seq![text::decimal(n), strategy_flag(s), strategy_flag(t)] + rest)
            is Err,
        merge::merge_request(seq![strategy_flag(s), strategy_flag(t)] + rest) is Err,
        !(x.len() > 0 && x[0] == '-') ==> merge::merge_request(seq![text::decimal(n), x] + rest)
            is Err,
        x.len() > 0 && x[0] == '-' && x != "--merge"@ && x != "--squash"@ && x != "--rebase"@ && x
            != "-h"@ && x != "--help"@ ==> merge::merge_request(seq![x] + rest) is Err
            && merge::merge_request(seq![text::decimal(n), x] + rest) is Err,
        x == "-h"@ || x == "--help"@ ==> merge::merge_request(seq![x] + rest) == Ok::<
            merge::MergeRequest,
            Seq<char>,
        >(merge::MergeRequest::Help) && merge::merge_request(seq![text::decimal(n), x] + rest)
            == Ok::<merge::MergeRequest, Seq<char>>(merge::MergeRequest::Help)
            && merge::merge_request(seq![strategy_flag(s), x] + rest) == Ok::<
            merge::MergeRequest,
            Seq<char>,
        >(merge::MergeRequest::Help),
{
    lemma_merge_flags();
    text::law_decimal_reads_back(n);
    let d = text::decimal(n);
    assert(text::is_digit(d[0]));
    reveal_with_fuel(merge::merge_args_from, 5);
    assert(merge::strategy_of(d) is None);
    assert(merge::strategy_of(strategy_flag(s)) == Some(s));
    assert(merge::strategy_of(strategy_flag(t)) == Some(t));
    let a1 = seq![d, strategy_flag(s), strategy_flag(t)] + rest;
    assert(a1[0] == d && a1[1] == strategy_flag(s) && a1[2] == strategy_flag(t));
    let a2 = seq![strategy_flag(s), strategy_flag(t)] + rest;
    assert(a2[0] == strategy_flag(s) && a2[1] == strategy_flag(t));
    let a3 = seq![d, x] + rest;
    assert(a3[0] == d && a3[1] == x);
    let a4 = seq![x] + rest;
    assert(a4[0] == x);
    let a5 = seq![strategy_flag(s), x] + rest;
    assert(a5[0] == strategy_flag(s) && a5[1] == x);
}

// ---------------------------------------------------------------------------
// What a merge needs

/// A merge that may begin goes to the base branch that the pull request was made for.
pub proof fn law_merge_goes_to_the_base(
    st: event::PrModel,
    id: int,
    current: Oid,
    snapshot: Oid,
    porcelain: Seq<char>,
)
    ensures
        merge::admission(st, id, current, snapshot, porcelain) matches Ok(b) ==> st.base_ref == Some(
            b,
        ),
        merge::gate(st, id) matches Ok(b) ==> st.base_ref == Some(b),
{
}

/// What bars a merge is told, the first of several: the decision of the review, that the
/// pull request is merged, where the base branch stands and stood, where it is checked
/// out, and the status of the latest CI check.
pub proof fn law_what_bars_a_merge_is_told(
    st: event::PrModel,
    id: int,
    current: Oid,
    snapshot: Oid,
    porcelain: Seq<char>,
)
    ensures
        ({
            let told = merge::admission(st, id, current, snapshot, porcelain);
            let fit = st.effective_decision == Some("approve"@) && st.merge_result is None
                && st.base_ref is Some;
            let b = st.base_ref.unwrap();
            let free = !crate::worktree::checked_out(porcelain, b);
            &&& st.effective_decision != Some("approve"@) ==> told is Err && {
                &&& passages::holds(told->Err_0, " is not approved "@)
                &&& st.effective_decision matches Some(d) ==> passages::holds(told->Err_0, d)
                &&& st.effective_decision is None ==> passages::holds(told->Err_0, "none"@)
            }
            &&& fit && current != snapshot ==> told is Err && {
                &&& passages::holds(told->Err_0, b)
                &&& passages::holds(told->Err_0, oid::oid_text(current))
                &&& passages::holds(told->Err_0, oid::oid_text(snapshot))
            }
            &&& fit && current == snapshot && !free ==> told is Err && {
                &&& passages::holds(told->Err_0, b)
                &&& passages::holds(told->Err_0, " is checked out "@)
            }
            &&& fit && current == snapshot && free && st.ci_status != Some("success"@)
                ==> told is Err && {
                &&& passages::holds(told->Err_0, " CI is not green "@)
                &&& st.ci_status matches Some(c) ==> passages::holds(told->Err_0, c)
                &&& st.ci_status is None ==> passages::holds(told->Err_0, "none"@)
            }
        }),
{
    let told = merge::admission(st, id, current, snapshot, porcelain);
    if st.effective_decision != Some("approve"@) {
        lemma_told(
            merge::pr_name(id),
            " is not approved (effective decision: "@,
            merge::or_none(st.effective_decision),
        );
        reveal_strlit(" is not approved (effective decision: ");
        reveal_strlit(" is not approved ");
        lemma_prefix_holds(
            merge::pr_name(id),
            " is not approved "@,
            " is not approved (effective decision: "@,
            merge::or_none(st.effective_decision) + ")"@,
        );
        assert(merge::pr_name(id) + " is not approved (effective decision: "@ + merge::or_none(
            st.effective_decision,
        ) + ")"@ =~= merge::pr_name(id) + " is not approved (effective decision: "@
            + (merge::or_none(st.effective_decision) + ")"@));
    } else if st.merge_result is None && st.base_ref is Some {
        let b = st.base_ref.unwrap();
        if current != snapshot {
            lemma_stale(b, id, current, snapshot);
        } else if crate::worktree::checked_out(porcelain, b) {
            lemma_busy(b);
        } else if st.ci_status != Some("success"@) {
            reveal_strlit(" CI is not green (latest CI Check: ");
            reveal_strlit(" CI is not green ");
            lemma_told(
                merge::pr_name(id),
                " CI is not green (latest CI Check: "@,
                merge::or_none(st.ci_status),
            );
            lemma_prefix_holds(
                merge::pr_name(id),
                " CI is not green "@,
                " CI is not green (latest CI Check: "@,
                merge::or_none(st.ci_status) + ")"@,
            );
            assert(merge::pr_name(id) + " CI is not green (latest CI Check: "@ + merge::or_none(
                st.ci_status,
            ) + ")"@ =~= merge::pr_name(id) + " CI is not green (latest CI Check: "@
                + (merge::or_none(st.ci_status) + ")"@));
        }
    }
}

proof fn lemma_told(a: Seq<char>, b: Seq<char>, c: Seq<char>)
    ensures
        passages::holds(a + b + c + ")"@, c),
{
    passages::lemma_holds(a + b, c, ")"@);
}

proof fn lemma_prefix_holds(a: Seq<char>, p: Seq<char>, whole: Seq<char>, b: Seq<char>)
    requires
        p.len() <= whole.len(),
        whole.take(p.len() as int) =~= p,
    ensures
        passages::holds(a + whole + b, p),
{
    let rest = whole.skip(p.len() as int);
    assert(whole =~= p + rest);
    assert(a + whole + b =~= a + p + (rest + b));
    passages::lemma_holds(a, p, rest + b);
}

proof fn lemma_stale(b: Seq<char>, id: int, current: Oid, snapshot: Oid)
    ensures
        ({
            let e = merge::stale_base(b, id, current, snapshot);
            &&& passages::holds(e, b)
            &&& passages::holds(e, oid::oid_text(current))
            &&& passages::holds(e, oid::oid_text(snapshot))
        }),
{
    let e = merge::stale_base(b, id, current, snapshot);
    let p1 = "base branch '"@;
    let p2 = "' has moved since "@ + merge::pr_name(id) + " was created ("@;
    let c = oid::oid_text(current);
    let p3 = " != snapshot "@;
    let s = oid::oid_text(snapshot);
    let p4 = "); recreate the PR or merge manually"@;
    assert(e =~= p1 + b + (p2 + c + p3 + s + p4));
    passages::lemma_holds(p1, b, p2 + c + p3 + s + p4);
    assert(e =~= (p1 + b + p2) + c + (p3 + s + p4));
    passages::lemma_holds(p1 + b + p2, c, p3 + s + p4);
    assert(e =~= (p1 + b + p2 + c + p3) + s + p4);
    passages::lemma_holds(p1 + b + p2 + c + p3, s, p4);
}

proof fn lemma_busy(b: Seq<char>)
    ensures
        passages::holds(merge::busy_base(b), b),
        passages::holds(merge::busy_base(b), " is checked out "@),
{
    let w = "' is checked out in a worktree; run the merge from/against an un-checked-out base"@;
    passages::lemma_holds("base branch '"@, b, w);
    reveal_strlit(
        "' is checked out in a worktree; run the merge from/against an un-checked-out base",
    );
    reveal_strlit(" is checked out ");
    let q = " is checked out "@;
    assert(q.len() == 16);
    let rest = w.skip(17);
    assert(w.subrange(1, 17) =~= q);
    assert(w =~= w.take(1) + q + rest);
    assert(merge::busy_base(b) =~= ("base branch '"@ + b + w.take(1)) + q + rest);
    passages::lemma_holds("base branch '"@ + b + w.take(1), q, rest);
}

/// The merge base that a pull request was created with reads back.
pub proof fn law_merge_base_reads_back(st: event::PrModel, o: Oid)
    requires
        st.merge_base == Some(oid::oid_text(o)),
    ensures
        merge::merge_base_of(st) == Ok::<Oid, Seq<char>>(o),
{
    oid::law_oid_reads_back(o);
}

// ---------------------------------------------------------------------------
// The run

/// The state after `n` pieces of work that all went well.
pub open spec fn when_all_goes_well(s: Run, strategy: Strategy, titled: bool, n: nat) -> Run
    decreases n,
{
    if n == 0 {
        s
    } else {
        merge::run_after(
            when_all_goes_well(s, strategy, titled, (n - 1) as nat),
            strategy,
            titled,
            Went::Well,
        )
    }
}

/// The commands of the strategy that are asked for on the way, in their order.
pub open spec fn commands_asked(
    s: Run,
    strategy: Strategy,
    titled: bool,
    n: nat,
    source: Oid,
    base: Oid,
    merge_base: Oid,
    title: Seq<char>,
) -> Seq<Seq<Seq<char>>>
    decreases n,
{
    if n == 0 {
        seq![]
    } else {
        let m = (n - 1) as nat;
        let before = commands_asked(s, strategy, titled, m, source, base, merge_base, title);
        match when_all_goes_well(s, strategy, titled, m) {
            Run::Strategy(step) => before.push(
                merge::step_args(strategy, step, source, base, merge_base, title),
            ),
            _ => before,
        }
    }
}

/// A run whose every piece of work goes well ends merged, whatever its strategy, and asks
/// for exactly the commands of its strategy: a merge commit or a rebase, or a squash with
/// a commit under the title, and then for the commit that came out.
pub proof fn law_a_run_that_goes_well_merges(
    strategy: Strategy,
    titled: bool,
    attempt: u32,
    source: Oid,
    base: Oid,
    merge_base: Oid,
    title: Seq<char>,
)
    requires
        strategy == Strategy::Squash ==> titled,
    ensures
        ({
            let start = Run::Reserve { attempt };
            let read = seq!["rev-parse"@, "HEAD"@];
            &&& when_all_goes_well(start, strategy, titled, 11) == Run::Merged
            &&& commands_asked(start, strategy, titled, 11, source, base, merge_base, title)
                == match strategy {
                Strategy::Merge => seq![
                    seq!["merge"@, "--no-ff"@, "--no-edit"@, oid::oid_text(source)],
                    read,
                ],
                Strategy::Squash => seq![
                    seq!["merge"@, "--squash"@, oid::oid_text(source)],
                    seq!["commit"@, "-m"@, title],
                    read,
                ],
                Strategy::Rebase => seq![
                    seq!["rebase"@, "--onto"@, oid::oid_text(base), oid::oid_text(merge_base)],
                    read,
                ],
            }
        }),
{
    let s0 = Run::Reserve { attempt };
    reveal_with_fuel(when_all_goes_well, 12);
    let s10 = when_all_goes_well(s0, strategy, titled, 10);
    let s11 = when_all_goes_well(s0, strategy, titled, 11);
    assert(s11 == Run::Merged);
    assert(when_all_goes_well(s0, strategy, titled, 1) == Run::AddTree);
    assert(when_all_goes_well(s0, strategy, titled, 2) == Run::Strategy(Step::Integrate));
    reveal_with_fuel(commands_asked, 12);
    let asked = commands_asked(s0, strategy, titled, 11, source, base, merge_base, title);
    if strategy == Strategy::Squash {
        assert(when_all_goes_well(s0, strategy, titled, 3) == Run::Strategy(Step::Commit));
        assert(when_all_goes_well(s0, strategy, titled, 4) == Run::Strategy(Step::ReadHead));
    } else {
        assert(when_all_goes_well(s0, strategy, titled, 3) == Run::Strategy(Step::ReadHead));
    }
}

/// A commit is made exactly where a squash has brought the changes together and the pull
/// request has a title; any other strategy goes on to read what came out.
pub proof fn law_only_a_squash_commits(s: Run, strategy: Strategy, titled: bool, went: Went)
    requires
        s != Run::Strategy(Step::Commit),
    ensures
        merge::run_after(s, strategy, titled, went) == Run::Strategy(Step::Commit) <==> {
            &&& s == Run::Strategy(Step::Integrate)
            &&& strategy == Strategy::Squash
            &&& titled
            &&& went == Went::Well
        },
        s == Run::Strategy(Step::Integrate) && strategy != Strategy::Squash && went == Went::Well
            ==> merge::run_after(s, strategy, titled, went) == Run::Strategy(Step::ReadHead),
        s == Run::Strategy(Step::Integrate) && strategy == Strategy::Squash && !titled && went
            == Went::Well ==> fault_in(merge::run_after(s, strategy, titled, went)) == Some(
            Fault::NoTitle,
        ),
{
}

/// The fault that a run has met.
pub open spec fn fault_in(s: Run) -> Option<Fault> {
    match s {
        Run::CleanUp { step, fault } => Some(fault),
        Run::DropPending(fault) => Some(fault),
        Run::Failed { fault, left } => Some(fault),
        _ => None,
    }
}

/// Work that does not go well is met by the fault that is named after it.
pub proof fn law_each_failure_has_its_fault(s: Run, strategy: Strategy, titled: bool, went: Went)
    requires
        went != Went::Well,
        fault_in(s) is None,
        !(s is Merged),
        !(s is Reserve),
    ensures
        fault_in(merge::run_after(s, strategy, titled, went)) == Some(
            match s {
                Run::AddTree => Fault::NoTree,
                Run::Strategy(_) => Fault::Strategy,
                Run::ReadResult => Fault::BadResult,
                Run::KeepResult => Fault::NotKept,
                Run::RemoveTree => Fault::NotRemoved,
                Run::CheckDirectory => Fault::DirectoryLeft,
                Run::ListTrees => if went == Went::Found {
                    Fault::StillListed
                } else {
                    Fault::NotListed
                },
                _ => Fault::NotCompleted,
            },
        ),
{
}

/// The fault that a run has met first is the one that it ends with.
pub proof fn law_fault_stays(s: Run, strategy: Strategy, titled: bool, went: Went)
    requires
        fault_in(s) is Some,
    ensures
        fault_in(merge::run_after(s, strategy, titled, went)) == fault_in(s),
{
}

/// A worktree that was added is cleaned up and removed wherever the merge fails before its
/// result is kept; once the result is kept, the pending ref is dropped instead.
pub proof fn law_failures_are_cleaned_up(s: Run, strategy: Strategy, titled: bool, went: Went)
    requires
        went != Went::Well,
    ensures
        ({
            let n = merge::run_after(s, strategy, titled, went);
            &&& s is Strategy ==> n is CleanUp && n->CleanUp_step == merge::first_clean(strategy)
            &&& s is ReadResult || s is KeepResult ==> n is CleanUp
            &&& s is RemoveTree || s is CheckDirectory || s is ListTrees ==> n is DropPending
        }),
{
}

/// The paths that are tried: each failure leads to the next, up to the last retry, which
/// ends the run.
pub proof fn law_paths_are_retried(attempt: u32, strategy: Strategy, titled: bool, went: Went)
    requires
        went != Went::Well,
    ensures
        attempt < 16 ==> merge::run_after(
            Run::Reserve { attempt },
            strategy,
            titled,
            went,
        ) == (Run::Reserve { attempt: (attempt + 1) as u32 }),
        attempt >= 16 ==> merge::run_after(Run::Reserve { attempt }, strategy, titled, went) == (
        Run::Failed { fault: Fault::NoPath(attempt), left: false }),
        merge::run_after(Run::Reserve { attempt }, strategy, titled, Went::Well) == Run::AddTree,
{
}

// ---------------------------------------------------------------------------
// Cleaning up

/// The cleaning commands from `c` on, where `found` says what the probes find.
pub open spec fn cleaning(c: Clean, found: bool, n: nat) -> Seq<Seq<Seq<char>>>
    decreases n,
{
    if n == 0 {
        seq![]
    } else {
        seq![merge::clean_args(c)] + (match merge::next_clean(c, found) {
            Some(d) => cleaning(d, found, (n - 1) as nat),
            None => seq![],
        })
    }
}

/// Cleaning up undoes what the strategy has begun, removes untracked files, and ends with
/// the removal of the worktree: a squash is reset, and a merge or a rebase that is under
/// way is aborted.
pub proof fn law_cleaning(found: bool)
    ensures
        ({
            let untracked = seq!["clean"@, "-fd"@];
            let none = Seq::<Seq<char>>::empty();
            &&& cleaning(merge::first_clean(Strategy::Squash), found, 9) == seq![
                seq!["reset"@, "--hard"@, "HEAD"@],
                untracked,
                none,
            ]
            &&& cleaning(merge::first_clean(Strategy::Merge), found, 9) == if found {
                seq![
                    seq!["rev-parse"@, "--verify"@, "-q"@, "MERGE_HEAD"@],
                    seq!["merge"@, "--abort"@],
                    untracked,
                    none,
                ]
            } else {
                seq![seq!["rev-parse"@, "--verify"@, "-q"@, "MERGE_HEAD"@], untracked, none]
            }
            &&& cleaning(merge::first_clean(Strategy::Rebase), found, 9) == if found {
                seq![none, seq!["rebase"@, "--abort"@], untracked, none]
            } else {
                seq![none, untracked, none]
            }
        }),
{
    reveal_with_fuel(cleaning, 6);
    let untracked = seq!["clean"@, "-fd"@];
    let none = Seq::<Seq<char>>::empty();
    assert(cleaning(merge::first_clean(Strategy::Squash), found, 9) =~= seq![
        seq!["reset"@, "--hard"@, "HEAD"@],
        untracked,
        none,
    ]);
    if found {
        assert(cleaning(merge::first_clean(Strategy::Merge), found, 9) =~= seq![
            seq!["rev-parse"@, "--verify"@, "-q"@, "MERGE_HEAD"@],
            seq!["merge"@, "--abort"@],
            untracked,
            none,
        ]);
        assert(cleaning(merge::first_clean(Strategy::Rebase), found, 9) =~= seq![
            none,
            seq!["rebase"@, "--abort"@],
            untracked,
            none,
        ]);
    } else {
        assert(cleaning(merge::first_clean(Strategy::Merge), found, 9) =~= seq![
            seq!["rev-parse"@, "--verify"@, "-q"@, "MERGE_HEAD"@],
            untracked,
            none,
        ]);
        assert(cleaning(merge::first_clean(Strategy::Rebase), found, 9) =~= seq![
            none,
            untracked,
            none,
        ]);
    }
}

/// Cleaning goes on whether a step succeeds or not, and only the removal of the worktree
/// ends it; a worktree that could not be removed is reported as left.
pub proof fn law_cleaning_goes_on(
    c: Clean,
    fault: Fault,
    strategy: Strategy,
    titled: bool,
    went: Went,
)
    ensures
        ({
            let n = merge::run_after(Run::CleanUp { step: c, fault }, strategy, titled, went);
            &&& n is Failed <==> c == Clean::Remove
            &&& n is Failed ==> (n->Failed_left <==> went != Went::Well)
            &&& c != Clean::ProbeMerge && c != Clean::ProbeRebase ==> merge::next_clean(c, true)
                == merge::next_clean(c, false)
        }),
{
}

// ---------------------------------------------------------------------------
// What the user is told

/// What is told of a failed merge holds what went wrong.
pub proof fn law_failure_names_its_cause(
    fault: Fault,
    left: bool,
    strategy: Strategy,
    id: int,
    cause: Seq<char>,
    tree: Seq<char>,
    removal: Seq<char>,
)
    requires
        fault is NoTree || fault is Strategy || fault is NotKept || fault is NotRemoved
            || fault is NotListed || fault is NotCompleted,
    ensures
        passages::holds(
            merge::failure_text(fault, left, strategy, id, cause, tree, removal),
            cause,
        ),
{
    let e = merge::failure_text(fault, left, strategy, id, cause, tree, removal);
    match fault {
        Fault::NoTree => {
            let a = "failed to create temporary worktree: "@;
            assert(e =~= a + cause + seq![]);
            passages::lemma_holds(a, cause, seq![]);
        },
        Fault::Strategy => {
            lemma_cleaned(merge::strategy_name(strategy), cause, left, tree, removal);
        },
        Fault::NotKept => {
            lemma_cleaned("merge"@, cause, left, tree, removal);
        },
        Fault::NotRemoved => {
            let a = "merge succeeded but temp worktree removal failed: "@;
            let b = " (worktree left at "@ + tree + merge::pending_text(id, left) + ")"@;
            assert(e =~= a + cause + b);
            passages::lemma_holds(a, cause, b);
        },
        Fault::NotListed => {
            let a = "merge succeeded but worktree verification failed (git worktree list: "@;
            let b = ")"@ + merge::pending_text(id, left);
            assert(e =~= a + cause + b);
            passages::lemma_holds(a, cause, b);
        },
        _ => {
            let a = "merge execution finished but final transaction failed ("@;
            let b = "); refs unchanged, pending result ref "@ + refs::pr_path(id, "/result"@)
                + " left in place"@;
            assert(e =~= a + cause + b);
            passages::lemma_holds(a, cause, b);
        },
    }
}

proof fn lemma_cleaned(
    kind: Seq<char>,
    cause: Seq<char>,
    left: bool,
    tree: Seq<char>,
    removal: Seq<char>,
)
    ensures
        ({
            let e = merge::cleaned_text(kind, cause, left, tree, removal);
            &&& passages::holds(e, kind)
            &&& passages::holds(e, cause)
            &&& left ==> passages::holds(e, tree) && passages::holds(e, removal)
            &&& !left ==> passages::holds(e, "; worktree cleaned up, no ref changes made"@)
        }),
{
    let e = merge::cleaned_text(kind, cause, left, tree, removal);
    let f = " failed: "@;
    if left {
        let w = "; temp worktree removal failed and the worktree is left at \""@;
        let z = ") — unlock and remove it manually"@;
        assert(e =~= "git "@ + kind + (f + cause + w + tree + "\" ("@ + removal + z));
        passages::lemma_holds("git "@, kind, f + cause + w + tree + "\" ("@ + removal + z);
        assert(e =~= ("git "@ + kind + f) + cause + (w + tree + "\" ("@ + removal + z));
        passages::lemma_holds("git "@ + kind + f, cause, w + tree + "\" ("@ + removal + z);
        assert(e =~= ("git "@ + kind + f + cause + w) + tree + ("\" ("@ + removal + z));
        passages::lemma_holds("git "@ + kind + f + cause + w, tree, "\" ("@ + removal + z);
        assert(e =~= ("git "@ + kind + f + cause + w + tree + "\" ("@) + removal + z);
        passages::lemma_holds("git "@ + kind + f + cause + w + tree + "\" ("@, removal, z);
    } else {
        let w = "; worktree cleaned up, no ref changes made"@;
        assert(e =~= "git "@ + kind + (f + cause + w));
        passages::lemma_holds("git "@, kind, f + cause + w);
        assert(e =~= ("git "@ + kind + f) + cause + w);
        passages::lemma_holds("git "@ + kind + f, cause, w);
        assert(e =~= ("git "@ + kind + f + cause) + w + seq![]);
        passages::lemma_holds("git "@ + kind + f + cause, w, seq![]);
    }
}

/// A worktree or a pending ref that is left behind is named, and where nothing is left
/// that is told.
pub proof fn law_failure_names_what_is_left(
    fault: Fault,
    left: bool,
    strategy: Strategy,
    id: int,
    cause: Seq<char>,
    tree: Seq<char>,
    removal: Seq<char>,
)
    ensures
        ({
            let e = merge::failure_text(fault, left, strategy, id, cause, tree, removal);
            let cleaned = fault is Strategy || fault is NoTitle || fault is BadResult
                || fault is NotKept;
            let pending = "refs/forge/prs/"@ + text::decimal(id as nat) + "/result"@;
            &&& cleaned && left ==> passages::holds(e, tree) && passages::holds(e, removal)
            &&& cleaned && !left ==> passages::holds(
                e,
                "; worktree cleaned up, no ref changes made"@,
            )
            &&& fault is NotRemoved || fault is DirectoryLeft || fault is StillListed
                ==> passages::holds(e, tree)
            &&& left && (fault is NotRemoved || fault is DirectoryLeft || fault is NotListed
                || fault is StillListed) ==> passages::holds(e, pending)
            &&& fault is NotCompleted ==> passages::holds(e, pending)
        }),
{
    let e = merge::failure_text(fault, left, strategy, id, cause, tree, removal);
    let pending = "refs/forge/prs/"@ + text::decimal(id as nat) + "/result"@;
    let pt = merge::pending_text(id, left);
    if left {
        let x = "; pending result ref "@;
        let y = " left in place"@;
        assert(pt =~= x + pending + y);
        match fault {
            Fault::NotRemoved => {
                let a = "merge succeeded but temp worktree removal failed: "@ + cause
                    + " (worktree left at "@ + tree;
                assert(e =~= (a + x) + pending + (y + ")"@));
                passages::lemma_holds(a + x, pending, y + ")"@);
            },
            Fault::DirectoryLeft => {
                let a = "merge succeeded but temp worktree directory still exists at "@ + tree;
                assert(e =~= (a + x) + pending + y);
                passages::lemma_holds(a + x, pending, y);
            },
            Fault::NotListed => {
                let a = "merge succeeded but worktree verification failed (git worktree list: "@
                    + cause + ")"@;
                assert(e =~= (a + x) + pending + y);
                passages::lemma_holds(a + x, pending, y);
            },
            Fault::StillListed => {
                let a = "merge succeeded but temp worktree still registered at "@ + tree;
                assert(e =~= (a + x) + pending + y);
                passages::lemma_holds(a + x, pending, y);
            },
            _ => {},
        }
    }
    match fault {
        Fault::Strategy => {
            lemma_cleaned(merge::strategy_name(strategy), cause, left, tree, removal);
        },
        Fault::NoTitle => {
            lemma_cleaned("squash"@, "PR has no title"@, left, tree, removal);
        },
        Fault::BadResult => {
            lemma_cleaned("merge"@, "invalid result commit"@, left, tree, removal);
        },
        Fault::NotKept => {
            lemma_cleaned("merge"@, cause, left, tree, removal);
        },
        Fault::NotRemoved => {
            let a = "merge succeeded but temp worktree removal failed: "@ + cause
                + " (worktree left at "@;
            assert(e =~= a + tree + (pt + ")"@));
            passages::lemma_holds(a, tree, pt + ")"@);
        },
        Fault::DirectoryLeft => {
            passages::lemma_holds(
                "merge succeeded but temp worktree directory still exists at "@,
                tree,
                pt,
            );
        },
        Fault::StillListed => {
            passages::lemma_holds(
                "merge succeeded but temp worktree still registered at "@,
                tree,
                pt,
            );
        },
        Fault::NotCompleted => {
            let a = "merge execution finished but final transaction failed ("@ + cause
                + "); refs unchanged, pending result ref "@;
            assert(e =~= a + pending + " left in place"@);
            passages::lemma_holds(a, pending, " left in place"@);
        },
        _ => {},
    }
}

/// The failure of a strategy is told under the name of the strategy, and different
/// strategies have different names.
pub proof fn law_failure_names_its_strategy(
    left: bool,
    strategy: Strategy,
    id: int,
    cause: Seq<char>,
    tree: Seq<char>,
    removal: Seq<char>,
)
    ensures
        text::starts_with(
            merge::failure_text(Fault::Strategy, left, strategy, id, cause, tree, removal),
            (match strategy {
                Strategy::Merge => "git merge failed: "@,
                Strategy::Squash => "git squash failed: "@,
                Strategy::Rebase => "git rebase failed: "@,
            }) + cause,
        ),
{
    reveal_strlit("git ");
    reveal_strlit(" failed: ");
    reveal_strlit("merge");
    reveal_strlit("squash");
    reveal_strlit("rebase");
    reveal_strlit("git merge failed: ");
    reveal_strlit("git squash failed: ");
    reveal_strlit("git rebase failed: ");
    let e = merge::failure_text(Fault::Strategy, left, strategy, id, cause, tree, removal);
    let p = match strategy {
        Strategy::Merge => "git merge failed: "@,
        Strategy::Squash => "git squash failed: "@,
        Strategy::Rebase => "git rebase failed: "@,
    };
    assert("git "@ + merge::strategy_name(strategy) + " failed: "@ =~= p);
    assert(e.take((p + cause).len() as int) =~= p + cause);
}

} // verus!
