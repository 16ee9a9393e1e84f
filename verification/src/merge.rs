//! Merging a pull request: its arguments, its gate, and its run as a state machine.

use crate::cli;
use crate::event;
use crate::event::PrState;
use crate::oid;
use crate::oid::Oid;
use crate::refs;
use crate::text;
use vstd::prelude::*;

verus! {

// ---------------------------------------------------------------------------
// Arguments

/// How the commits of a pull request get into its base branch.
#[derive(Debug, Clone, Copy, PartialEq, Eq, Structural)]
pub enum Strategy {
    /// A merge commit.
    Merge,
    /// One commit with all changes.
    Squash,
    /// The commits replayed on the base.
    Rebase,
}

/// What a command line of `pr merge` asks for, as mathematics sees it.
#[verifier::ext_equal]
pub enum MergeRequest {
    Help,
    Merge(int, Strategy),
}

/// What a command line of `pr merge` asks for.
#[derive(Debug, Clone, Copy, PartialEq, Eq, Structural)]
pub enum MergeCommand {
    /// Print the help.
    Help,
    /// Merge a pull request.
    Merge { id: u64, strategy: Strategy },
}

impl View for MergeCommand {
    type V = MergeRequest;

    open spec fn view(&self) -> MergeRequest {
        match self {
            MergeCommand::Help => MergeRequest::Help,
            MergeCommand::Merge { id, strategy } => MergeRequest::Merge(*id as int, *strategy),
        }
    }
}

/// The strategy that a flag names.
pub open spec fn strategy_of(flag: Seq<char>) -> Option<Strategy> {
    if flag == "--merge"@ {
        Some(Strategy::Merge)
    } else if flag == "--squash"@ {
        Some(Strategy::Squash)
    } else if flag == "--rebase"@ {
        Some(Strategy::Rebase)
    } else {
        None
    }
}

/// What the arguments of `pr merge` say from `i` on, behind what was read before.
pub open spec fn merge_args_from(
    args: Seq<Seq<char>>,
    i: int,
    id: Option<Seq<char>>,
    strategy: Option<Strategy>,
) -> Result<MergeRequest, Seq<char>>
    decreases args.len() - i,
{
    if !(0 <= i < args.len()) {
        let named = match id {
            Some(s) => s,
            None => seq![],
        };
        match cli::entity_id_of(named) {
            Err(e) => Err(e),
            Ok(n) => Ok(
                MergeRequest::Merge(
                    n,
                    match strategy {
                        Some(s) => s,
                        None => Strategy::Merge,
                    },
                ),
            ),
        }
    } else if strategy_of(args[i]) is Some {
        if strategy is Some {
            Err("merge strategy flag specified more than once"@)
        } else {
            merge_args_from(args, i + 1, id, strategy_of(args[i]))
        }
    } else if args[i] == "-h"@ || args[i] == "--help"@ {
        Ok(MergeRequest::Help)
    } else if args[i].len() > 0 && args[i][0] == '-' {
        Err("unknown option '"@ + args[i] + "'"@)
    } else if id is Some {
        Err(
            "usage: git forge pr merge [<n>] [--merge|--squash|--rebase] (only one PR id allowed)"@,
        )
    } else {
        merge_args_from(args, i + 1, Some(args[i]), strategy)
    }
}

/// What the arguments of `pr merge` ask for, or what is wrong with them.
pub open spec fn merge_request(args: Seq<Seq<char>>) -> Result<MergeRequest, Seq<char>> {
    merge_args_from(args, 0, None, None)
}

/// The strategy that a flag names.
fn parse_strategy(flag: &str) -> (r: Option<Strategy>)
    ensures
        r == strategy_of(flag@),
{
    if text::same(flag, "--merge") {
        Some(Strategy::Merge)
    } else if text::same(flag, "--squash") {
        Some(Strategy::Squash)
    } else if text::same(flag, "--rebase") {
        Some(Strategy::Rebase)
    } else {
        None
    }
}

/// Reads the arguments of `pr merge [<n>] [--merge|--squash|--rebase]`.
pub fn parse_merge(args: &[String]) -> (r: Result<MergeCommand, String>)
    ensures
        match (r, merge_request(event::texts(args@))) {
            (Ok(c), Ok(m)) => c@ == m,
            (Err(e), Err(m)) => e@ == m,
            _ => false,
        },
{
    let ghost all = event::texts(args@);
    let mut id: Option<String> = None;
    let mut strategy: Option<Strategy> = None;
    let mut i: usize = 0;
    while i < args.len()
        invariant
            all == event::texts(args@),
            merge_request(all) == merge_args_from(all, i as int, event::opt_text(id), strategy),
        decreases args@.len() - i,
    {
        let a = args[i].as_str();
        assert(all[i as int] == a@);
        let named = parse_strategy(a);
        if named.is_some() {
            if strategy.is_some() {
                return Err("merge strategy flag specified more than once".to_owned());
            }
            strategy = named;
        } else if text::same(a, "-h") || text::same(a, "--help") {
            return Ok(MergeCommand::Help);
        } else if a.unicode_len() > 0 && a.get_char(0) == '-' {
            let mut e = "unknown option '".to_owned();
            e.append(a);
            e.append("'");
            return Err(e);
        } else if id.is_some() {
            return Err(
                "usage: git forge pr merge [<n>] [--merge|--squash|--rebase] (only one PR id allowed)".to_owned(),
            );
        } else {
            id = Some(a.to_owned());
        }
        i = i + 1;
    }
    let parsed = match &id {
        Some(s) => cli::parse_entity_id(s.as_str()),
        None => {
            proof {
                reveal_strlit("");
                assert(""@ =~= seq![]);
            }
            cli::parse_entity_id("")
        },
    };
    match parsed {
        Err(e) => Err(e),
        Ok(n) => {
            let chosen = match strategy {
                Some(s) => s,
                None => Strategy::Merge,
            };
            Ok(MergeCommand::Merge { id: n, strategy: chosen })
        },
    }
}

/// The help of `pr merge`.
pub fn merge_help() -> (r: String)
    ensures
        r@
            == "usage: git forge pr merge [<n>] [--merge|--squash|--rebase]\n  default / --merge: merge commit (--no-ff --no-edit)\n  --squash: single squashed commit\n  --rebase: replay source onto base (linear history)"@,
{
    "usage: git forge pr merge [<n>] [--merge|--squash|--rebase]\n  default / --merge: merge commit (--no-ff --no-edit)\n  --squash: single squashed commit\n  --rebase: replay source onto base (linear history)".to_owned()
}

// ---------------------------------------------------------------------------
// What a merge needs

/// `PR #<n>`.
pub open spec fn pr_name(id: int) -> Seq<char> {
    "PR #"@ + text::decimal(id as nat)
}

/// `PR #<n>`.
pub fn pr_title(id: u64) -> (r: String)
    ensures
        r@ == pr_name(id as int),
{
    text::join2("PR #", text::decimal_string(id).as_str())
}

/// The text, or else `none`.
pub open spec fn or_none(o: Option<Seq<char>>) -> Seq<char> {
    match o {
        Some(s) => s,
        None => "none"@,
    }
}

/// Is the pull request one to merge? The last review that decides must approve it, and it
/// must not be merged. Then the base branch, else why not.
pub open spec fn gate(st: event::PrModel, id: int) -> Result<Seq<char>, Seq<char>> {
    if st.effective_decision != Some("approve"@) {
        Err(
            pr_name(id) + " is not approved (effective decision: "@ + or_none(st.effective_decision)
                + ")"@,
        )
    } else if st.merge_result is Some {
        Err(pr_name(id) + " is already merged"@)
    } else {
        match st.base_ref {
            Some(b) => Ok(b),
            None => Err("PR has no base_ref"@),
        }
    }
}

/// Is the optional string this word?
fn is_word(o: &Option<String>, word: &str) -> (r: bool)
    ensures
        r == (event::opt_text(*o) == Some(word@)),
{
    match o {
        Some(s) => text::same(s.as_str(), word),
        None => false,
    }
}

/// Why a merge is barred.
fn shut(id: u64, why: &str, o: &Option<String>) -> (r: String)
    ensures
        r@ == pr_name(id as int) + why@ + or_none(event::opt_text(*o)) + ")"@,
{
    let mut e = pr_title(id);
    e.append(why);
    match o {
        Some(s) => {
            e.append(s.as_str());
        },
        None => {
            e.append("none");
        },
    }
    e.append(")");
    e
}

/// Is the pull request one to merge? Then the base branch, else why not.
pub fn check_gate(st: &PrState, id: u64) -> (r: Result<String, String>)
    ensures
        match (r, gate(st@, id as int)) {
            (Ok(b), Ok(m)) => b@ == m,
            (Err(e), Err(m)) => e@ == m,
            _ => false,
        },
{
    if !is_word(&st.effective_decision, "approve") {
        return Err(shut(id, " is not approved (effective decision: ", &st.effective_decision));
    }
    if st.merge_result.is_some() {
        let mut e = pr_title(id);
        e.append(" is already merged");
        return Err(e);
    }
    match &st.base_ref {
        Some(b) => Ok(b.clone()),
        None => Err("PR has no base_ref".to_owned()),
    }
}

/// The merge base that a pull request was created with, or what is wrong with it.
pub open spec fn merge_base_of(st: event::PrModel) -> Result<Oid, Seq<char>> {
    match st.merge_base {
        None => Err("PR has no merge_base"@),
        Some(s) => match oid::oid_of(s) {
            Some(o) => Ok(o),
            None => Err("PR merge_base invalid"@),
        },
    }
}

/// The merge base that a pull request was created with.
pub fn read_merge_base(st: &PrState) -> (r: Result<Oid, String>)
    ensures
        match (r, merge_base_of(st@)) {
            (Ok(o), Ok(m)) => o == m,
            (Err(e), Err(m)) => e@ == m,
            _ => false,
        },
{
    match &st.merge_base {
        None => Err("PR has no merge_base".to_owned()),
        Some(s) => match Oid::from_hex(s.as_str()) {
            Some(o) => Ok(o),
            None => Err("PR merge_base invalid".to_owned()),
        },
    }
}

/// What is told where the base branch has moved on.
pub open spec fn stale_base(base_ref: Seq<char>, id: int, current: Oid, snapshot: Oid) -> Seq<char> {
    "base branch '"@ + base_ref + "' has moved since "@ + pr_name(id) + " was created ("@
        + oid::oid_text(current) + " != snapshot "@ + oid::oid_text(snapshot)
        + "); recreate the PR or merge manually"@
}

/// Is the base branch still where the pull request was made against?
pub fn check_base(base_ref: &str, id: u64, current: Oid, snapshot: Oid) -> (r: Result<(), String>)
    ensures
        match r {
            Ok(_) => current == snapshot,
            Err(e) => current != snapshot && e@ == stale_base(
                base_ref@,
                id as int,
                current,
                snapshot,
            ),
        },
{
    if current == snapshot {
        return Ok(());
    }
    let mut e = "base branch '".to_owned();
    e.append(base_ref);
    e.append("' has moved since ");
    e.append(pr_title(id).as_str());
    e.append(" was created (");
    e.append(current.to_hex().as_str());
    e.append(" != snapshot ");
    e.append(snapshot.to_hex().as_str());
    e.append("); recreate the PR or merge manually");
    Err(e)
}

/// What is told where the base branch is checked out.
pub open spec fn busy_base(base_ref: Seq<char>) -> Seq<char> {
    "base branch '"@ + base_ref
        + "' is checked out in a worktree; run the merge from/against an un-checked-out base"@
}

/// Is the base branch free: checked out in none of the worktrees of the list?
pub fn check_base_free(porcelain: &str, base_ref: &str) -> (r: Result<(), String>)
    ensures
        match r {
            Ok(_) => !crate::worktree::checked_out(porcelain@, base_ref@),
            Err(e) => crate::worktree::checked_out(porcelain@, base_ref@) && e@ == busy_base(
                base_ref@,
            ),
        },
{
    if crate::worktree::branch_checked_out(porcelain, base_ref) {
        let mut e = "base branch '".to_owned();
        e.append(base_ref);
        e.append(
            "' is checked out in a worktree; run the merge from/against an un-checked-out base",
        );
        Err(e)
    } else {
        Ok(())
    }
}

/// Has the latest CI check passed? Else what is told.
pub open spec fn green(st: event::PrModel, id: int) -> Result<(), Seq<char>> {
    if st.ci_status == Some("success"@) {
        Ok(())
    } else {
        Err(pr_name(id) + " CI is not green (latest CI Check: "@ + or_none(st.ci_status) + ")"@)
    }
}

/// Has the latest CI check passed?
pub fn check_green(st: &PrState, id: u64) -> (r: Result<(), String>)
    ensures
        match (r, green(st@, id as int)) {
            (Ok(_), Ok(_)) => true,
            (Err(e), Err(m)) => e@ == m,
            _ => false,
        },
{
    if is_word(&st.ci_status, "success") {
        Ok(())
    } else {
        Err(shut(id, " CI is not green (latest CI Check: ", &st.ci_status))
    }
}

// ---------------------------------------------------------------------------
// Whether a merge may begin

/// May the merge begin? The pull request must be one to merge, its base branch must be
/// where it was made against and checked out nowhere, and its latest CI check must have
/// passed. Then the base branch, else the first of these that fails.
pub open spec fn admission(
    st: event::PrModel,
    id: int,
    current: Oid,
    snapshot: Oid,
    porcelain: Seq<char>,
) -> Result<Seq<char>, Seq<char>> {
    match gate(st, id) {
        Err(e) => Err(e),
        Ok(b) => if current != snapshot {
            Err(stale_base(b, id, current, snapshot))
        } else if crate::worktree::checked_out(porcelain, b) {
            Err(busy_base(b))
        } else {
            match green(st, id) {
                Err(e) => Err(e),
                Ok(_) => Ok(b),
            }
        },
    }
}

/// May the merge begin? `current` is where the base branch stands, `snapshot` where it
/// stood for the pull request, and `porcelain` the list of the worktrees.
pub fn check_merge(st: &PrState, id: u64, current: Oid, snapshot: Oid, porcelain: &str) -> (r: Result<
    String,
    String,
>)
    ensures
        match (r, admission(st@, id as int, current, snapshot, porcelain@)) {
            (Ok(b), Ok(m)) => b@ == m,
            (Err(e), Err(m)) => e@ == m,
            _ => false,
        },
{
    let base_ref = match check_gate(st, id) {
        Ok(b) => b,
        Err(e) => {
            return Err(e);
        },
    };
    if let Err(e) = check_base(base_ref.as_str(), id, current, snapshot) {
        return Err(e);
    }
    if let Err(e) = check_base_free(porcelain, base_ref.as_str()) {
        return Err(e);
    }
    match check_green(st, id) {
        Ok(_) => Ok(base_ref),
        Err(e) => Err(e),
    }
}

/// A merge begins only for a pull request that is approved, is not merged, and has passed
/// CI, onto a base branch that has not moved and is checked out nowhere.
pub proof fn law_gate(
    st: event::PrModel,
    id: int,
    current: Oid,
    snapshot: Oid,
    porcelain: Seq<char>,
)
    ensures
        admission(st, id, current, snapshot, porcelain) is Ok <==> {
            &&& st.effective_decision == Some("approve"@)
            &&& st.merge_result is None
            &&& st.base_ref is Some
            &&& current == snapshot
            &&& !crate::worktree::checked_out(porcelain, st.base_ref.unwrap())
            &&& st.ci_status == Some("success"@)
        },
{
}

/// A merged pull request is told to be merged, whatever its checks and its base branch
/// say.
pub proof fn law_merged_is_told(
    st: event::PrModel,
    id: int,
    current: Oid,
    snapshot: Oid,
    porcelain: Seq<char>,
)
    requires
        st.effective_decision == Some("approve"@),
        st.merge_result is Some,
    ensures
        admission(st, id, current, snapshot, porcelain) == Err::<Seq<char>, Seq<char>>(
            pr_name(id) + " is already merged"@,
        ),
{
}

/// A pull request whose last decision approves it, whose latest CI check passed, and which
/// has no recorded merge may be merged into its base branch, where that has not moved and
/// is checked out nowhere.
pub proof fn law_ready_chain(
    es: Seq<event::EventModel>,
    decision: int,
    check: int,
    id: int,
    base: Oid,
    porcelain: Seq<char>,
)
    requires
        0 <= decision < es.len(),
        crate::fold_laws::is_decision(es[decision]),
        forall|j: int|
            decision < j < es.len() ==> !crate::fold_laws::is_decision(#[trigger] es[j]),
        event::text_field(es[decision].body, "decision"@) == Some("approve"@),
        0 <= check < es.len(),
        crate::fold_laws::is_check(es[check]),
        forall|j: int| check < j < es.len() ==> !crate::fold_laws::is_check(#[trigger] es[j]),
        event::text_field(es[check].body, "status"@) == Some("success"@),
        forall|j: int| 0 <= j < es.len() ==> !crate::fold_laws::is_merge(#[trigger] es[j]),
        event::folded(es).pr.base_ref is Some,
        !crate::worktree::checked_out(porcelain, event::folded(es).pr.base_ref.unwrap()),
    ensures
        admission(event::folded(es).pr, id, base, base, porcelain) == Ok::<Seq<char>, Seq<char>>(
            event::folded(es).pr.base_ref.unwrap(),
        ),
{
    crate::fold_laws::law_last_decision_counts(es, decision);
    crate::fold_laws::law_latest_check_counts(es, check);
    crate::fold_laws::law_no_merge(es);
}

/// A rejection after an approval bars a merge, whatever else is recorded before.
pub proof fn law_reject_shuts_gate(
    es: Seq<event::EventModel>,
    e: event::EventModel,
    id: int,
)
    requires
        crate::fold_laws::is_decision(e),
        event::text_field(e.body, "decision"@) == Some("reject"@),
    ensures
        gate(event::folded(es.push(e)).pr, id) is Err,
{
    crate::fold_laws::law_last_decision_counts(es.push(e), es.len() as int);
    reveal_strlit("approve");
    reveal_strlit("reject");
    assert("approve"@.len() == 7 && "reject"@.len() == 6);
}

/// A CI check that did not pass bars a merge, whatever else is recorded before.
pub proof fn law_failed_check_shuts_gate(
    es: Seq<event::EventModel>,
    e: event::EventModel,
    id: int,
    current: Oid,
    snapshot: Oid,
    porcelain: Seq<char>,
)
    requires
        crate::fold_laws::is_check(e),
        event::text_field(e.body, "status"@) != Some("success"@),
    ensures
        admission(event::folded(es.push(e)).pr, id, current, snapshot, porcelain) is Err,
{
    crate::fold_laws::law_latest_check_counts(es.push(e), es.len() as int);
}

/// A pull request is merged once: a recorded merge bars a merge.
pub proof fn law_merge_shuts_gate(
    es: Seq<event::EventModel>,
    e: event::EventModel,
    id: int,
)
    requires
        crate::fold_laws::is_merge(e),
        event::text_field(e.body, "result_commit"@) is Some,
    ensures
        gate(event::folded(es.push(e)).pr, id) is Err,
{
    crate::fold_laws::law_last_merge_counts(es.push(e), es.len() as int);
}

/// Where the temporary worktree starts: a rebase replays the source, and everything
/// else works on the base.
pub fn start_commit(strategy: Strategy, source: Oid, base: Oid) -> (r: Oid)
    ensures
        r == (if strategy == Strategy::Rebase {
            source
        } else {
            base
        }),
{
    if strategy == Strategy::Rebase {
        source
    } else {
        base
    }
}

// ---------------------------------------------------------------------------
// The strategy

/// The name of a strategy.
pub open spec fn strategy_name(s: Strategy) -> Seq<char> {
    match s {
        Strategy::Merge => "merge"@,
        Strategy::Squash => "squash"@,
        Strategy::Rebase => "rebase"@,
    }
}

/// The name of a strategy.
pub fn strategy_str(s: Strategy) -> (r: &'static str)
    ensures
        r@ == strategy_name(s),
{
    match s {
        Strategy::Merge => "merge",
        Strategy::Squash => "squash",
        Strategy::Rebase => "rebase",
    }
}

/// A step of a strategy.
#[derive(Debug, Clone, Copy, PartialEq, Eq, Structural)]
pub enum Step {
    /// Bring the changes together.
    Integrate,
    /// Commit the squashed changes.
    Commit,
    /// Read the commit that came out.
    ReadHead,
}

/// The arguments of the `git` command of a step.
pub open spec fn step_args(
    strategy: Strategy,
    step: Step,
    source: Oid,
    base: Oid,
    merge_base: Oid,
    title: Seq<char>,
) -> Seq<Seq<char>> {
    match step {
        Step::Integrate => match strategy {
            Strategy::Rebase => seq![
                "rebase"@,
                "--onto"@,
                oid::oid_text(base),
                oid::oid_text(merge_base),
            ],
            Strategy::Squash => seq!["merge"@, "--squash"@, oid::oid_text(source)],
            Strategy::Merge => seq!["merge"@, "--no-ff"@, "--no-edit"@, oid::oid_text(source)],
        },
        Step::Commit => seq!["commit"@, "-m"@, title],
        Step::ReadHead => seq!["rev-parse"@, "HEAD"@],
    }
}

/// The arguments of the `git` command of a step.
pub fn step_command(
    strategy: Strategy,
    step: Step,
    source: Oid,
    base: Oid,
    merge_base: Oid,
    title: &str,
) -> (r: Vec<String>)
    ensures
        event::texts(r@) == step_args(strategy, step, source, base, merge_base, title@),
{
    let mut out: Vec<String> = Vec::new();
    match step {
        Step::Integrate => match strategy {
            Strategy::Rebase => {
                out.push("rebase".to_owned());
                out.push("--onto".to_owned());
                out.push(base.to_hex());
                out.push(merge_base.to_hex());
            },
            Strategy::Squash => {
                out.push("merge".to_owned());
                out.push("--squash".to_owned());
                out.push(source.to_hex());
            },
            Strategy::Merge => {
                out.push("merge".to_owned());
                out.push("--no-ff".to_owned());
                out.push("--no-edit".to_owned());
                out.push(source.to_hex());
            },
        },
        Step::Commit => {
            out.push("commit".to_owned());
            out.push("-m".to_owned());
            out.push(title.to_owned());
        },
        Step::ReadHead => {
            out.push("rev-parse".to_owned());
            out.push("HEAD".to_owned());
        },
    }
    assert(event::texts(out@) =~= step_args(strategy, step, source, base, merge_base, title@));
    out
}

// ---------------------------------------------------------------------------
// Cleaning up after a failure

/// A step of cleaning up the temporary worktree.
#[derive(Debug, Clone, Copy, PartialEq, Eq, Structural)]
pub enum Clean {
    /// Undo what a squash has staged.
    Reset,
    /// Is a merge under way?
    ProbeMerge,
    /// Abort the merge.
    AbortMerge,
    /// Is a rebase under way?
    ProbeRebase,
    /// Abort the rebase.
    AbortRebase,
    /// Remove untracked files.
    Untracked,
    /// Remove the worktree.
    Remove,
}

/// The first step of cleaning up after a failure of `strategy`.
pub open spec fn first_clean(strategy: Strategy) -> Clean {
    match strategy {
        Strategy::Squash => Clean::Reset,
        Strategy::Merge => Clean::ProbeMerge,
        Strategy::Rebase => Clean::ProbeRebase,
    }
}

/// The step after `c`, where `ok` says how `c` went; none behind the last.
pub open spec fn next_clean(c: Clean, ok: bool) -> Option<Clean> {
    match c {
        Clean::Reset => Some(Clean::Untracked),
        Clean::ProbeMerge => if ok {
            Some(Clean::AbortMerge)
        } else {
            Some(Clean::Untracked)
        },
        Clean::AbortMerge => Some(Clean::Untracked),
        Clean::ProbeRebase => if ok {
            Some(Clean::AbortRebase)
        } else {
            Some(Clean::Untracked)
        },
        Clean::AbortRebase => Some(Clean::Untracked),
        Clean::Untracked => Some(Clean::Remove),
        Clean::Remove => None,
    }
}

/// The arguments of the `git` command of a cleaning step, run inside the worktree.
/// Whether a rebase is under way, and the removal of the worktree, are asked of the
/// repository instead.
pub open spec fn clean_args(c: Clean) -> Seq<Seq<char>> {
    match c {
        Clean::Reset => seq!["reset"@, "--hard"@, "HEAD"@],
        Clean::ProbeMerge => seq!["rev-parse"@, "--verify"@, "-q"@, "MERGE_HEAD"@],
        Clean::AbortMerge => seq!["merge"@, "--abort"@],
        Clean::AbortRebase => seq!["rebase"@, "--abort"@],
        Clean::Untracked => seq!["clean"@, "-fd"@],
        _ => seq![],
    }
}

/// The arguments of the `git` command of a cleaning step.
pub fn clean_command(c: Clean) -> (r: Vec<String>)
    ensures
        event::texts(r@) == clean_args(c),
{
    let mut out: Vec<String> = Vec::new();
    match c {
        Clean::Reset => {
            out.push("reset".to_owned());
            out.push("--hard".to_owned());
            out.push("HEAD".to_owned());
        },
        Clean::ProbeMerge => {
            out.push("rev-parse".to_owned());
            out.push("--verify".to_owned());
            out.push("-q".to_owned());
            out.push("MERGE_HEAD".to_owned());
        },
        Clean::AbortMerge => {
            out.push("merge".to_owned());
            out.push("--abort".to_owned());
        },
        Clean::AbortRebase => {
            out.push("rebase".to_owned());
            out.push("--abort".to_owned());
        },
        Clean::Untracked => {
            out.push("clean".to_owned());
            out.push("-fd".to_owned());
        },
        _ => {},
    }
    assert(event::texts(out@) =~= clean_args(c));
    out
}

// ---------------------------------------------------------------------------
// The run

/// How often a path for the temporary worktree is tried beyond the first.
pub const MAX_PATH_RETRIES: u32 = 16;

/// What made a merge fail.
#[derive(Debug, Clone, Copy, PartialEq, Eq, Structural)]
pub enum Fault {
    /// No path could be reserved, after this many retries.
    NoPath(u32),
    /// The worktree could not be added.
    NoTree,
    /// A command of the strategy failed.
    Strategy,
    /// A squash needs a title, and the pull request has none.
    NoTitle,
    /// What came out is no commit id.
    BadResult,
    /// The result could not be kept.
    NotKept,
    /// The worktree could not be removed.
    NotRemoved,
    /// The directory of the worktree is still there.
    DirectoryLeft,
    /// The worktrees could not be listed.
    NotListed,
    /// The worktree is still registered.
    StillListed,
    /// The completing transaction failed.
    NotCompleted,
}

/// The state of a merge.
#[derive(Debug, Clone, Copy, PartialEq, Eq, Structural)]
pub enum Run {
    /// Reserve a path for the worktree.
    Reserve { attempt: u32 },
    /// Add the worktree.
    AddTree,
    /// Run a step of the strategy.
    Strategy(Step),
    /// Read the id of the commit that came out.
    ReadResult,
    /// Keep the result alive under the pending ref.
    KeepResult,
    /// Remove the worktree.
    RemoveTree,
    /// Is the directory of the worktree gone?
    CheckDirectory,
    /// Is the worktree no longer registered?
    ListTrees,
    /// Complete the merge in one transaction.
    Complete,
    /// Clean up the worktree.
    CleanUp { step: Clean, fault: Fault },
    /// Delete the pending ref.
    DropPending(Fault),
    /// Merged.
    Merged,
    /// Not merged. `left` says that the worktree, or the pending ref, is left behind.
    Failed { fault: Fault, left: bool },
}

/// How a piece of work went.
#[derive(Debug, Clone, Copy, PartialEq, Eq, Structural)]
pub enum Went {
    /// As it should.
    Well,
    /// It failed.
    Wrong,
    /// It found what should not be there.
    Found,
}

/// The state after the work that `s` asks for has gone as `went` says. `titled` says
/// whether the pull request has a title.
pub open spec fn run_after(s: Run, strategy: Strategy, titled: bool, went: Went) -> Run {
    let well = went == Went::Well;
    match s {
        Run::Reserve { attempt } => if well {
            Run::AddTree
        } else if attempt < MAX_PATH_RETRIES {
            Run::Reserve { attempt: (attempt + 1) as u32 }
        } else {
            Run::Failed { fault: Fault::NoPath(attempt), left: false }
        },
        Run::AddTree => if well {
            Run::Strategy(Step::Integrate)
        } else {
            Run::Failed { fault: Fault::NoTree, left: false }
        },
        Run::Strategy(step) => if !well {
            Run::CleanUp { step: first_clean(strategy), fault: Fault::Strategy }
        } else {
            match step {
                Step::Integrate => if strategy != Strategy::Squash {
                    Run::Strategy(Step::ReadHead)
                } else if titled {
                    Run::Strategy(Step::Commit)
                } else {
                    Run::CleanUp { step: first_clean(strategy), fault: Fault::NoTitle }
                },
                Step::Commit => Run::Strategy(Step::ReadHead),
                Step::ReadHead => Run::ReadResult,
            }
        },
        Run::ReadResult => if well {
            Run::KeepResult
        } else {
            Run::CleanUp { step: first_clean(Strategy::Merge), fault: Fault::BadResult }
        },
        Run::KeepResult => if well {
            Run::RemoveTree
        } else {
            Run::CleanUp { step: first_clean(Strategy::Merge), fault: Fault::NotKept }
        },
        Run::RemoveTree => if well {
            Run::CheckDirectory
        } else {
            Run::DropPending(Fault::NotRemoved)
        },
        Run::CheckDirectory => if well {
            Run::ListTrees
        } else {
            Run::DropPending(Fault::DirectoryLeft)
        },
        Run::ListTrees => match went {
            Went::Well => Run::Complete,
            Went::Wrong => Run::DropPending(Fault::NotListed),
            Went::Found => Run::DropPending(Fault::StillListed),
        },
        Run::Complete => if well {
            Run::Merged
        } else {
            Run::Failed { fault: Fault::NotCompleted, left: true }
        },
        Run::CleanUp { step, fault } => match next_clean(step, well) {
            Some(next) => Run::CleanUp { step: next, fault },
            None => Run::Failed { fault, left: !well },
        },
        Run::DropPending(fault) => Run::Failed { fault, left: !well },
        Run::Merged => s,
        Run::Failed { fault, left } => s,
    }
}

/// Does the run own the path of the worktree in this state?
pub open spec fn owns_path(s: Run) -> bool {
    match s {
        Run::Reserve { attempt } => false,
        Run::Complete => false,
        Run::DropPending(fault) => false,
        Run::Merged => false,
        Run::Failed { fault, left } => false,
        _ => true,
    }
}

impl Run {
    /// The first state.
    pub fn start() -> (s: Self)
        ensures
            s == (Run::Reserve { attempt: 0 }),
    {
        Run::Reserve { attempt: 0 }
    }

    /// Does the run own the path of the worktree in this state?
    pub fn owns(self) -> (r: bool)
        ensures
            r == owns_path(self),
    {
        match self {
            Run::Reserve { .. } => false,
            Run::Complete => false,
            Run::DropPending(_) => false,
            Run::Merged => false,
            Run::Failed { .. } => false,
            _ => true,
        }
    }

    /// The state after the work has gone as `went` says.
    pub fn next(self, strategy: Strategy, titled: bool, went: Went) -> (s: Self)
        ensures
            s == run_after(self, strategy, titled, went),
    {
        let well = went == Went::Well;
        match self {
            Run::Reserve { attempt } => if well {
                Run::AddTree
            } else if attempt < MAX_PATH_RETRIES {
                Run::Reserve { attempt: attempt + 1 }
            } else {
                Run::Failed { fault: Fault::NoPath(attempt), left: false }
            },
            Run::AddTree => if well {
                Run::Strategy(Step::Integrate)
            } else {
                Run::Failed { fault: Fault::NoTree, left: false }
            },
            Run::Strategy(step) => if !well {
                clean_up(strategy, Fault::Strategy)
            } else {
                match step {
                    Step::Integrate => if strategy != Strategy::Squash {
                        Run::Strategy(Step::ReadHead)
                    } else if titled {
                        Run::Strategy(Step::Commit)
                    } else {
                        clean_up(strategy, Fault::NoTitle)
                    },
                    Step::Commit => Run::Strategy(Step::ReadHead),
                    Step::ReadHead => Run::ReadResult,
                }
            },
            Run::ReadResult => if well {
                Run::KeepResult
            } else {
                clean_up(Strategy::Merge, Fault::BadResult)
            },
            Run::KeepResult => if well {
                Run::RemoveTree
            } else {
                clean_up(Strategy::Merge, Fault::NotKept)
            },
            Run::RemoveTree => if well {
                Run::CheckDirectory
            } else {
                Run::DropPending(Fault::NotRemoved)
            },
            Run::CheckDirectory => if well {
                Run::ListTrees
            } else {
                Run::DropPending(Fault::DirectoryLeft)
            },
            Run::ListTrees => match went {
                Went::Well => Run::Complete,
                Went::Wrong => Run::DropPending(Fault::NotListed),
                Went::Found => Run::DropPending(Fault::StillListed),
            },
            Run::Complete => if well {
                Run::Merged
            } else {
                Run::Failed { fault: Fault::NotCompleted, left: true }
            },
            Run::CleanUp { step, fault } => match clean_after(step, well) {
                Some(next) => Run::CleanUp { step: next, fault },
                None => Run::Failed { fault, left: !well },
            },
            Run::DropPending(fault) => Run::Failed { fault, left: !well },
            Run::Merged => self,
            Run::Failed { .. } => self,
        }
    }
}

/// The state that begins to clean up after a failure.
fn clean_up(strategy: Strategy, fault: Fault) -> (s: Run)
    ensures
        s == (Run::CleanUp { step: first_clean(strategy), fault }),
{
    let step = match strategy {
        Strategy::Squash => Clean::Reset,
        Strategy::Merge => Clean::ProbeMerge,
        Strategy::Rebase => Clean::ProbeRebase,
    };
    Run::CleanUp { step, fault }
}

/// The cleaning step after `c`.
fn clean_after(c: Clean, ok: bool) -> (r: Option<Clean>)
    ensures
        r == next_clean(c, ok),
{
    match c {
        Clean::Reset => Some(Clean::Untracked),
        Clean::ProbeMerge => if ok {
            Some(Clean::AbortMerge)
        } else {
            Some(Clean::Untracked)
        },
        Clean::AbortMerge => Some(Clean::Untracked),
        Clean::ProbeRebase => if ok {
            Some(Clean::AbortRebase)
        } else {
            Some(Clean::Untracked)
        },
        Clean::AbortRebase => Some(Clean::Untracked),
        Clean::Untracked => Some(Clean::Remove),
        Clean::Remove => None,
    }
}

// ---------------------------------------------------------------------------
// Laws of the run

/// How far a run has come on its way to the merge.
pub open spec fn stage(s: Run) -> int {
    match s {
        Run::Reserve { attempt } => 0,
        Run::AddTree => 1,
        Run::Strategy(Step::Integrate) => 2,
        Run::Strategy(Step::Commit) => 3,
        Run::Strategy(Step::ReadHead) => 4,
        Run::ReadResult => 5,
        Run::KeepResult => 6,
        Run::RemoveTree => 7,
        Run::CheckDirectory => 8,
        Run::ListTrees => 9,
        Run::Complete => 10,
        Run::Merged => 11,
        _ => -1,
    }
}

/// A run gets on only by work that went well, and leaves out no stage but the commit
/// of a squash. So the merge is completed only after the strategy has succeeded, the
/// result is kept, and the worktree is removed, gone, and no longer registered.
pub proof fn law_stages_in_order(s: Run, strategy: Strategy, titled: bool, went: Went)
    requires
        stage(run_after(s, strategy, titled, went)) > stage(s),
    ensures
        went == Went::Well,
        stage(s) >= 0,
        stage(run_after(s, strategy, titled, went)) == stage(s) + 1 || (s == Run::Strategy(
            Step::Integrate,
        ) && strategy != Strategy::Squash && run_after(s, strategy, titled, went) == Run::Strategy(
            Step::ReadHead,
        )),
{
}

/// A run that has failed stays failed, and one that has merged stays merged.
pub proof fn law_ends_stay(s: Run, strategy: Strategy, titled: bool, went: Went)
    requires
        s is Merged || s is Failed,
    ensures
        run_after(s, strategy, titled, went) == s,
{
}

/// Once a run turns to cleaning up it never completes the merge.
pub proof fn law_failure_is_final(s: Run, strategy: Strategy, titled: bool, went: Went)
    requires
        s is CleanUp || s is DropPending,
    ensures
        ({
            let n = run_after(s, strategy, titled, went);
            n is CleanUp || n is Failed
        }),
{
}

/// Has the result been kept, and neither completed nor dropped?
pub open spec fn result_kept(s: Run) -> bool {
    s is RemoveTree || s is CheckDirectory || s is ListTrees || s is Complete || s is DropPending
}

/// A run that has kept the result ends in the merge, or drops the result, or says that
/// it is left.
pub proof fn law_kept_result_is_settled(s: Run, strategy: Strategy, titled: bool, went: Went)
    requires
        result_kept(s),
    ensures
        ({
            let n = run_after(s, strategy, titled, went);
            ||| result_kept(n)
            ||| n is Merged && s is Complete && went == Went::Well
            ||| n is Failed && s is DropPending && (n->Failed_left <==> went != Went::Well)
            ||| n is Failed && s is Complete && n->Failed_left
        }),
{
}

/// The path is owned from its reservation until the worktree is known to be gone or the
/// run turns to report a failure.
pub proof fn law_path_ownership(s: Run, strategy: Strategy, titled: bool, went: Went)
    ensures
        ({
            let n = run_after(s, strategy, titled, went);
            &&& owns_path(n) && !owns_path(s) ==> s is Reserve && went == Went::Well
            &&& owns_path(s) && !owns_path(n) ==> n is Complete || n is Failed || n is DropPending
        }),
{
}

/// How many steps a run can still take at most.
pub open spec fn steps_left(s: Run) -> int {
    match s {
        Run::Reserve { attempt } => 20 + (MAX_PATH_RETRIES - attempt),
        Run::AddTree => 19,
        Run::Strategy(Step::Integrate) => 18,
        Run::Strategy(Step::Commit) => 17,
        Run::Strategy(Step::ReadHead) => 16,
        Run::ReadResult => 15,
        Run::KeepResult => 14,
        Run::RemoveTree => 13,
        Run::CheckDirectory => 12,
        Run::ListTrees => 11,
        Run::Complete => 10,
        Run::DropPending(fault) => 1,
        Run::CleanUp { step, fault } => match step {
            Clean::ProbeMerge => 4,
            Clean::ProbeRebase => 4,
            Clean::Reset => 3,
            Clean::AbortMerge => 3,
            Clean::AbortRebase => 3,
            Clean::Untracked => 2,
            Clean::Remove => 1,
        },
        Run::Merged => 0,
        Run::Failed { fault, left } => 0,
    }
}

/// A run ends, however its work goes.
pub proof fn law_run_ends(s: Run, strategy: Strategy, titled: bool, went: Went)
    requires
        !(s is Merged) && !(s is Failed),
        s matches Run::Reserve { attempt } ==> attempt <= MAX_PATH_RETRIES,
    ensures
        0 <= steps_left(run_after(s, strategy, titled, went)) < steps_left(s),
        run_after(s, strategy, titled, went) matches Run::Reserve { attempt } ==> attempt
            <= MAX_PATH_RETRIES,
{
}

// ---------------------------------------------------------------------------
// What the user is told

/// What is told of a pending ref that is left.
pub open spec fn pending_text(id: int, left: bool) -> Seq<char> {
    if left {
        "; pending result ref "@ + refs::pr_path(id, "/result"@) + " left in place"@
    } else {
        seq![]
    }
}

/// What is told of a failure after which the worktree was cleaned up, or left.
pub open spec fn cleaned_text(
    kind: Seq<char>,
    cause: Seq<char>,
    left: bool,
    tree: Seq<char>,
    removal: Seq<char>,
) -> Seq<char> {
    if left {
        "git "@ + kind + " failed: "@ + cause
            + "; temp worktree removal failed and the worktree is left at \""@ + tree + "\" ("@
            + removal + ") — unlock and remove it manually"@
    } else {
        "git "@ + kind + " failed: "@ + cause + "; worktree cleaned up, no ref changes made"@
    }
}

/// What is told of a merge that failed: `cause` is what went wrong, `tree` the path of
/// the worktree, and `removal` why it could not be removed.
pub open spec fn failure_text(
    fault: Fault,
    left: bool,
    strategy: Strategy,
    id: int,
    cause: Seq<char>,
    tree: Seq<char>,
    removal: Seq<char>,
) -> Seq<char> {
    match fault {
        Fault::NoPath(n) =>
            "failed to create temporary worktree: could not reserve a unique temp worktree path after "@
            + text::decimal(n as nat) + " attempts"@,
        Fault::NoTree => "failed to create temporary worktree: "@ + cause,
        Fault::Strategy => cleaned_text(strategy_name(strategy), cause, left, tree, removal),
        Fault::NoTitle => cleaned_text("squash"@, "PR has no title"@, left, tree, removal),
        Fault::BadResult => cleaned_text("merge"@, "invalid result commit"@, left, tree, removal),
        Fault::NotKept => cleaned_text("merge"@, cause, left, tree, removal),
        Fault::NotRemoved => "merge succeeded but temp worktree removal failed: "@ + cause
            + " (worktree left at "@ + tree + pending_text(id, left) + ")"@,
        Fault::DirectoryLeft => "merge succeeded but temp worktree directory still exists at "@
            + tree + pending_text(id, left),
        Fault::NotListed =>
            "merge succeeded but worktree verification failed (git worktree list: "@ + cause + ")"@
            + pending_text(id, left),
        Fault::StillListed => "merge succeeded but temp worktree still registered at "@ + tree
            + pending_text(id, left),
        Fault::NotCompleted => "merge execution finished but final transaction failed ("@ + cause
            + "); refs unchanged, pending result ref "@ + refs::pr_path(id, "/result"@)
            + " left in place"@,
    }
}

/// What is told of a pending ref that is left.
fn pending_string(id: u64, left: bool) -> (r: String)
    ensures
        r@ == pending_text(id as int, left),
{
    let mut s = String::new();
    if left {
        s.append("; pending result ref ");
        s.append(refs::pr_result_ref(id).as_str());
        s.append(" left in place");
        assert(s@ =~= pending_text(id as int, left));
    }
    assert(s@ =~= pending_text(id as int, left));
    s
}

/// What is told of a failure after which the worktree was cleaned up, or left.
fn cleaned_string(kind: &str, cause: &str, left: bool, tree: &str, removal: &str) -> (r: String)
    ensures
        r@ == cleaned_text(kind@, cause@, left, tree@, removal@),
{
    let mut s = "git ".to_owned();
    s.append(kind);
    s.append(" failed: ");
    s.append(cause);
    if left {
        s.append("; temp worktree removal failed and the worktree is left at \"");
        s.append(tree);
        s.append("\" (");
        s.append(removal);
        s.append(") — unlock and remove it manually");
    } else {
        s.append("; worktree cleaned up, no ref changes made");
    }
    s
}

/// What is told of a merge that failed.
pub fn failure_message(
    fault: Fault,
    left: bool,
    strategy: Strategy,
    id: u64,
    cause: &str,
    tree: &str,
    removal: &str,
) -> (r: String)
    ensures
        r@ == failure_text(fault, left, strategy, id as int, cause@, tree@, removal@),
{
    match fault {
        Fault::NoPath(n) => {
            let mut s =
                "failed to create temporary worktree: could not reserve a unique temp worktree path after ".to_owned();
            s.append(text::decimal_string(n as u64).as_str());
            s.append(" attempts");
            s
        },
        Fault::NoTree => text::join2("failed to create temporary worktree: ", cause),
        Fault::Strategy => cleaned_string(strategy_str(strategy), cause, left, tree, removal),
        Fault::NoTitle => cleaned_string("squash", "PR has no title", left, tree, removal),
        Fault::BadResult => cleaned_string("merge", "invalid result commit", left, tree, removal),
        Fault::NotKept => cleaned_string("merge", cause, left, tree, removal),
        Fault::NotRemoved => {
            let mut s = "merge succeeded but temp worktree removal failed: ".to_owned();
            s.append(cause);
            s.append(" (worktree left at ");
            s.append(tree);
            s.append(pending_string(id, left).as_str());
            s.append(")");
            s
        },
        Fault::DirectoryLeft => {
            let mut s = "merge succeeded but temp worktree directory still exists at ".to_owned();
            s.append(tree);
            s.append(pending_string(id, left).as_str());
            s
        },
        Fault::NotListed => {
            let mut s =
                "merge succeeded but worktree verification failed (git worktree list: ".to_owned();
            s.append(cause);
            s.append(")");
            s.append(pending_string(id, left).as_str());
            s
        },
        Fault::StillListed => {
            let mut s = "merge succeeded but temp worktree still registered at ".to_owned();
            s.append(tree);
            s.append(pending_string(id, left).as_str());
            s
        },
        Fault::NotCompleted => {
            let mut s = "merge execution finished but final transaction failed (".to_owned();
            s.append(cause);
            s.append("); refs unchanged, pending result ref ");
            s.append(refs::pr_result_ref(id).as_str());
            s.append(" left in place");
            s
        },
    }
}

/// What is told of a merge.
pub fn merged_message(id: u64, base_ref: &str, result: Oid) -> (r: String)
    ensures
        r@ == "merged "@ + pr_name(id as int) + " into "@ + base_ref@ + " ("@ + oid::oid_text(
            result,
        ) + ")"@,
{
    let mut s = "merged ".to_owned();
    s.append(pr_title(id).as_str());
    s.append(" into ");
    s.append(base_ref);
    s.append(" (");
    s.append(result.to_hex().as_str());
    s.append(")");
    s
}

} // verus!
