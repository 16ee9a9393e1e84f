//! Continuous integration: which plan a pull request runs, how a run is watched, and
//! what it comes to.

use crate::cli;
use crate::event;
use crate::merge::{Went, MAX_PATH_RETRIES};
use crate::messages;
use crate::messages::Entity;
use crate::text;
use vstd::prelude::*;

pub mod validate;

verus! {

// ---------------------------------------------------------------------------
// The plan

/// The name of a justfile.
#[derive(Debug, Clone, Copy, PartialEq, Eq, Structural)]
pub enum Justfile {
    Lower,
    Upper,
    Hidden,
}

/// What is run for a pull request, from its own snapshot.
#[derive(Debug, Clone, Copy, PartialEq, Eq, Structural)]
pub enum CiPlan {
    /// The script `.forge/ci.sh`.
    CiSh,
    /// `just check` with the justfile of the snapshot.
    JustCheck(Justfile),
}

/// The name under which a plan is recorded.
pub open spec fn plan_label(p: CiPlan) -> Seq<char> {
    match p {
        CiPlan::CiSh => ".forge/ci.sh"@,
        CiPlan::JustCheck(_) => "just check"@,
    }
}

/// The file name of a justfile.
pub open spec fn justfile_name(j: Justfile) -> Seq<char> {
    match j {
        Justfile::Lower => "justfile"@,
        Justfile::Upper => "Justfile"@,
        Justfile::Hidden => ".justfile"@,
    }
}

/// The path of the file that a plan runs, within the snapshot.
pub open spec fn plan_path(p: CiPlan) -> Seq<char> {
    match p {
        CiPlan::CiSh => ".forge/ci.sh"@,
        CiPlan::JustCheck(j) => justfile_name(j),
    }
}

impl Justfile {
    /// The file name.
    pub fn name(self) -> (r: &'static str)
        ensures
            r@ == justfile_name(self),
    {
        match self {
            Justfile::Lower => "justfile",
            Justfile::Upper => "Justfile",
            Justfile::Hidden => ".justfile",
        }
    }
}

impl CiPlan {
    /// The name under which the plan is recorded.
    pub fn label(&self) -> (r: &'static str)
        ensures
            r@ == plan_label(*self),
    {
        match self {
            CiPlan::CiSh => ".forge/ci.sh",
            CiPlan::JustCheck(_) => "just check",
        }
    }

    /// The path of the file that the plan runs, within the snapshot.
    pub fn path(&self) -> (r: &'static str)
        ensures
            r@ == plan_path(*self),
    {
        match self {
            CiPlan::CiSh => ".forge/ci.sh",
            CiPlan::JustCheck(j) => j.name(),
        }
    }

    /// May the content of the plan be run? A script may always be; a justfile only where
    /// it needs nothing but itself.
    pub fn check_content(&self, content: &[u8]) -> (r: Result<(), String>)
        ensures
            match self {
                CiPlan::CiSh => r is Ok,
                CiPlan::JustCheck(j) => match r {
                    Ok(_) => validate::refusal_of(text::utf8_lossy(content@)) is None,
                    Err(e) => validate::refusal_of(text::utf8_lossy(content@)) matches Some(why)
                        && e@ == validate::refusal_text(why, justfile_name(*j)),
                },
            },
            self is JustCheck && vstd::utf8::valid_utf8(content@) ==> text::utf8_lossy(content@)
                == vstd::utf8::decode_utf8(content@),
    {
        match self {
            CiPlan::CiSh => Ok(()),
            CiPlan::JustCheck(j) => validate::validate_justfile_closure(content, j.name()),
        }
    }
}

/// What stands at a path of a snapshot.
#[derive(Debug, Clone, Copy, PartialEq, Eq, Structural)]
pub enum Entry {
    Absent,
    Regular,
    Symlink,
    Other,
}

/// What a file mode of a Git tree stands for; nothing stands where there is none.
pub open spec fn entry_of(mode: Option<i32>) -> Entry {
    match mode {
        None => Entry::Absent,
        Some(m) => if m == 0o100644 || m == 0o100755 || m == 0o100664 {
            Entry::Regular
        } else if m == 0o120000 {
            Entry::Symlink
        } else {
            Entry::Other
        },
    }
}

/// What a file mode of a Git tree stands for.
pub fn entry_kind(mode: Option<i32>) -> (r: Entry)
    ensures
        r == entry_of(mode),
{
    match mode {
        None => Entry::Absent,
        Some(m) => if m == 0o100644 || m == 0o100755 || m == 0o100664 {
            Entry::Regular
        } else if m == 0o120000 {
            Entry::Symlink
        } else {
            Entry::Other
        },
    }
}

/// What is told of a plan file that is no regular file.
pub open spec fn refused_entry(name: Seq<char>, entry: Entry, code: Seq<char>) -> Seq<char> {
    "refusing "@ + name + (if entry == Entry::Symlink {
        ": symlink ("@
    } else {
        ": not a regular file ("@
    }) + code + ")"@
}

/// The justfile of a snapshot: the first one that is there, which must be a regular file.
pub open spec fn fallback_of(lower: Entry, upper: Entry, hidden: Entry) -> Result<CiPlan, Seq<char>> {
    let (entry, which) = if lower != Entry::Absent {
        (lower, Justfile::Lower)
    } else if upper != Entry::Absent {
        (upper, Justfile::Upper)
    } else {
        (hidden, Justfile::Hidden)
    };
    match entry {
        Entry::Absent => Err(
            "no justfile in PR snapshot for the `just check` fallback (F-012)"@,
        ),
        Entry::Regular => Ok(CiPlan::JustCheck(which)),
        _ => Err(refused_entry(justfile_name(which), entry, "F-012"@)),
    }
}

/// The plan of a snapshot, by what stands at the paths of its plan files: the script where
/// it is there, and else a justfile. A link is never followed.
pub open spec fn plan_of(ci_sh: Entry, lower: Entry, upper: Entry, hidden: Entry) -> Result<
    CiPlan,
    Seq<char>,
> {
    match ci_sh {
        Entry::Absent => fallback_of(lower, upper, hidden),
        Entry::Regular => Ok(CiPlan::CiSh),
        _ => Err(refused_entry(".forge/ci.sh"@, ci_sh, "F-001"@)),
    }
}

/// What is told of a plan file that is no regular file.
fn refuse_entry(name: &str, entry: Entry, code: &str) -> (r: String)
    ensures
        r@ == refused_entry(name@, entry, code@),
{
    let mut s = "refusing ".to_owned();
    s.append(name);
    if entry == Entry::Symlink {
        s.append(": symlink (");
    } else {
        s.append(": not a regular file (");
    }
    s.append(code);
    s.append(")");
    s
}

/// The plan of a snapshot, by the file modes at the paths of its plan files.
pub fn snapshot_ci_plan(
    ci_sh: Option<i32>,
    lower: Option<i32>,
    upper: Option<i32>,
    hidden: Option<i32>,
) -> (r: Result<CiPlan, String>)
    ensures
        match (r, plan_of(entry_of(ci_sh), entry_of(lower), entry_of(upper), entry_of(hidden))) {
            (Ok(p), Ok(m)) => p == m,
            (Err(e), Err(m)) => e@ == m,
            _ => false,
        },
{
    let script = entry_kind(ci_sh);
    match script {
        Entry::Regular => {
            return Ok(CiPlan::CiSh);
        },
        Entry::Absent => {},
        _ => {
            return Err(refuse_entry(".forge/ci.sh", script, "F-001"));
        },
    }
    let (entry, which) = if entry_kind(lower) != Entry::Absent {
        (entry_kind(lower), Justfile::Lower)
    } else if entry_kind(upper) != Entry::Absent {
        (entry_kind(upper), Justfile::Upper)
    } else {
        (entry_kind(hidden), Justfile::Hidden)
    };
    match entry {
        Entry::Absent => Err(
            "no justfile in PR snapshot for the `just check` fallback (F-012)".to_owned(),
        ),
        Entry::Regular => Ok(CiPlan::JustCheck(which)),
        _ => Err(refuse_entry(which.name(), entry, "F-012")),
    }
}

/// A plan is only ever a regular file of the snapshot, and the fallback counts only where
/// there is no script.
pub proof fn law_plan_is_regular_file(ci_sh: Entry, lower: Entry, upper: Entry, hidden: Entry)
    ensures
        plan_of(ci_sh, lower, upper, hidden) == Ok::<CiPlan, Seq<char>>(CiPlan::CiSh) <==> ci_sh
            == Entry::Regular,
        plan_of(ci_sh, lower, upper, hidden) matches Ok(CiPlan::JustCheck(j)) ==> ci_sh
            == Entry::Absent && (match j {
            Justfile::Lower => lower,
            Justfile::Upper => upper,
            Justfile::Hidden => hidden,
        }) == Entry::Regular,
{
}

// ---------------------------------------------------------------------------
// The deadline

/// The seconds that a plan may take: the configured number, kept from 1 second to a day,
/// and 300 where none is configured.
pub open spec fn timeout_of(v: Option<Seq<char>>) -> int {
    let n = match v {
        Some(s) => match cli::unsigned_of(s) {
            Some(k) => k,
            None => 300,
        },
        None => 300,
    };
    if n < 1 {
        1
    } else if n > 86_400 {
        86_400
    } else {
        n
    }
}

/// The seconds that a plan may take.
pub fn ci_timeout(env_value: Option<&str>) -> (r: u64)
    ensures
        r == timeout_of(crate::records::opt_view(env_value)),
        1 <= r <= 86_400,
{
    let n: u64 = match env_value {
        Some(s) => match cli::parse_unsigned(s) {
            Some(k) => k,
            None => 300,
        },
        None => 300,
    };
    if n < 1 {
        1
    } else if n > 86_400 {
        86_400
    } else {
        n
    }
}

// ---------------------------------------------------------------------------
// The environment

/// Is `s` one of the variables that make the loader run other code?
pub open spec fn is_loader_var(s: Seq<char>) -> bool {
    ||| s == "LD_PRELOAD"@
    ||| s == "LD_AUDIT"@
    ||| s == "LD_LIBRARY_PATH"@
    ||| s == "LD_TRACE_LOADED_OBJECTS"@
    ||| s == "LD_DEBUG"@
    ||| s == "DYLD_INSERT_LIBRARIES"@
    ||| s == "DYLD_FORCE_TEXT_SEGMENT"@
    ||| s == "DYLD_LIBRARY_PATH"@
    ||| s == "DYLD_FRAMEWORK_PATH"@
    ||| s == "DYLD_FALLBACK_FRAMEWORK_PATH"@
    ||| s == "DYLD_VERSIONED_FRAMEWORK_PATH"@
    ||| s == "DYLD_FALLBACK_LIBRARY_PATH"@
    ||| s == "DYLD_VERSIONED_LIBRARY_PATH"@
    ||| s == "DYLD_IMAGE_SUFFIX"@
    ||| s == "DYLD_ROOT_PATH"@
}

/// Is `s` one of the variables that make Git look elsewhere or run other commands?
pub open spec fn is_git_var(s: Seq<char>) -> bool {
    ||| s == "GIT_DIR"@
    ||| s == "GIT_WORK_TREE"@
    ||| s == "GIT_INDEX_FILE"@
    ||| s == "GIT_OBJECT_DIRECTORY"@
    ||| s == "GIT_ALTERNATE_OBJECT_DIRECTORIES"@
    ||| s == "GIT_COMMON_DIR"@
    ||| s == "GIT_NAMESPACE"@
    ||| s == "GIT_CONFIG"@
    ||| s == "GIT_CONFIG_COUNT"@
    ||| s == "GIT_CONFIG_PARAMETERS"@
    ||| s == "GIT_ATTR_SOURCE"@
    ||| s == "GIT_EXTERNAL_DIFF"@
    ||| s == "GIT_EXTERNAL_DIFF_TRUST_EXIT_CODE"@
    ||| s == "GIT_REPLACE_REF_BASE"@
    ||| s == "GIT_SHALLOW_FILE"@
    ||| s == "GIT_CEILING_DIRECTORIES"@
    ||| s == "GIT_SSH_COMMAND"@
    ||| s == "GIT_SSH"@
    ||| s == "GIT_ASKPASS"@
    ||| s == "GIT_PROXY_COMMAND"@
    ||| s == "GIT_EXEC_PATH"@
}

/// Is `s` one of the variables that change how a shell or `just` runs a plan?
pub open spec fn is_shell_var(s: Seq<char>) -> bool {
    ||| s == "BASH_ENV"@
    ||| s == "ENV"@
    ||| s == "ZDOTDIR"@
    ||| s == "JUST_ALLOW_MISSING"@
    ||| s == "JUST_NO_DEPS"@
    ||| s == "JUST_WORKING_DIRECTORY"@
    ||| s == "JUST_DOTENV_COMMAND"@
    ||| s == "CDPATH"@
    ||| s == "IFS"@
    ||| s == "SHELLOPTS"@
    ||| s == "BASHOPTS"@
    ||| s == "POSIXLY_CORRECT"@
    ||| s == "SHELL"@
}

/// Is `s` the variable of an exported Bash function?
pub open spec fn is_bash_function(s: Seq<char>) -> bool {
    text::starts_with(s, "BASH_FUNC_"@) && text::ends_with(s, "%%"@)
}

/// Is the variable `s` kept from a plan?
pub open spec fn kept_from_plan(s: Seq<char>) -> bool {
    is_loader_var(s) || is_git_var(s) || is_shell_var(s) || is_bash_function(s)
}

/// Is `name` one of the variables that make the loader run other code?
pub fn is_loader_variable(name: &str) -> (r: bool)
    ensures
        r == is_loader_var(name@),
{
    text::same(name, "LD_PRELOAD") || text::same(name, "LD_AUDIT") || text::same(
        name,
        "LD_LIBRARY_PATH",
    ) || text::same(name, "LD_TRACE_LOADED_OBJECTS") || text::same(name, "LD_DEBUG") || text::same(
        name,
        "DYLD_INSERT_LIBRARIES",
    ) || text::same(name, "DYLD_FORCE_TEXT_SEGMENT") || text::same(name, "DYLD_LIBRARY_PATH")
        || text::same(name, "DYLD_FRAMEWORK_PATH") || text::same(
        name,
        "DYLD_FALLBACK_FRAMEWORK_PATH",
    ) || text::same(name, "DYLD_VERSIONED_FRAMEWORK_PATH") || text::same(
        name,
        "DYLD_FALLBACK_LIBRARY_PATH",
    ) || text::same(name, "DYLD_VERSIONED_LIBRARY_PATH") || text::same(name, "DYLD_IMAGE_SUFFIX")
        || text::same(name, "DYLD_ROOT_PATH")
}

/// Is `name` one of the variables that make Git look elsewhere or run other commands?
fn is_git_variable(name: &str) -> (r: bool)
    ensures
        r == is_git_var(name@),
{
    text::same(name, "GIT_DIR") || text::same(name, "GIT_WORK_TREE") || text::same(
        name,
        "GIT_INDEX_FILE",
    ) || text::same(name, "GIT_OBJECT_DIRECTORY") || text::same(
        name,
        "GIT_ALTERNATE_OBJECT_DIRECTORIES",
    ) || text::same(name, "GIT_COMMON_DIR") || text::same(name, "GIT_NAMESPACE") || text::same(
        name,
        "GIT_CONFIG",
    ) || text::same(name, "GIT_CONFIG_COUNT") || text::same(name, "GIT_CONFIG_PARAMETERS")
        || text::same(name, "GIT_ATTR_SOURCE") || text::same(name, "GIT_EXTERNAL_DIFF")
        || text::same(name, "GIT_EXTERNAL_DIFF_TRUST_EXIT_CODE") || text::same(
        name,
        "GIT_REPLACE_REF_BASE",
    ) || text::same(name, "GIT_SHALLOW_FILE") || text::same(name, "GIT_CEILING_DIRECTORIES")
        || text::same(name, "GIT_SSH_COMMAND") || text::same(name, "GIT_SSH") || text::same(
        name,
        "GIT_ASKPASS",
    ) || text::same(name, "GIT_PROXY_COMMAND") || text::same(name, "GIT_EXEC_PATH")
}

/// Is `name` one of the variables that change how a shell or `just` runs a plan?
fn is_shell_variable(name: &str) -> (r: bool)
    ensures
        r == is_shell_var(name@),
{
    text::same(name, "BASH_ENV") || text::same(name, "ENV") || text::same(name, "ZDOTDIR")
        || text::same(name, "JUST_ALLOW_MISSING") || text::same(name, "JUST_NO_DEPS")
        || text::same(name, "JUST_WORKING_DIRECTORY") || text::same(name, "JUST_DOTENV_COMMAND")
        || text::same(name, "CDPATH") || text::same(name, "IFS") || text::same(name, "SHELLOPTS")
        || text::same(name, "BASHOPTS") || text::same(name, "POSIXLY_CORRECT") || text::same(
        name,
        "SHELL",
    )
}

/// Is the variable `name` kept from a plan?
pub fn is_kept_from_plan(name: &str) -> (r: bool)
    ensures
        r == kept_from_plan(name@),
{
    if is_loader_variable(name) || is_git_variable(name) || is_shell_variable(name) {
        return true;
    }
    let v = text::chars_of(name);
    text::has_prefix(v.as_slice(), "BASH_FUNC_") && text::has_suffix(v.as_slice(), "%%")
}

/// The variables that a plan gets set, with their values: no dry run, and no
/// configuration of Git beyond the repository's own.
pub fn plan_variables() -> (r: Vec<(String, String)>)
    ensures
        r@.len() == 3,
        r@[0].0@ == "JUST_DRY_RUN"@ && r@[0].1@ == "false"@,
        r@[1].0@ == "GIT_CONFIG_GLOBAL"@ && r@[1].1@ == "/dev/null"@,
        r@[2].0@ == "GIT_CONFIG_SYSTEM"@ && r@[2].1@ == "/dev/null"@,
{
    let mut v: Vec<(String, String)> = Vec::new();
    v.push(("JUST_DRY_RUN".to_owned(), "false".to_owned()));
    v.push(("GIT_CONFIG_GLOBAL".to_owned(), "/dev/null".to_owned()));
    v.push(("GIT_CONFIG_SYSTEM".to_owned(), "/dev/null".to_owned()));
    v
}

// ---------------------------------------------------------------------------
// The runner

/// The arguments of the program that runs a plan in `worktree`: the shell gets the
/// script, and `just` its justfile and a fixed shell.
pub open spec fn plan_args(p: CiPlan, worktree: Seq<char>) -> Seq<Seq<char>> {
    match p {
        CiPlan::CiSh => seq![".forge/ci.sh"@],
        CiPlan::JustCheck(j) => seq![
            "--justfile"@,
            worktree + "/"@ + justfile_name(j),
            "--shell"@,
            "/bin/sh"@,
            "check"@,
        ],
    }
}

/// The arguments of the program that runs a plan in `worktree`.
pub fn plan_arguments(p: CiPlan, worktree: &str) -> (r: Vec<String>)
    ensures
        event::texts(r@) == plan_args(p, worktree@),
{
    let mut out: Vec<String> = Vec::new();
    match p {
        CiPlan::CiSh => {
            out.push(".forge/ci.sh".to_owned());
        },
        CiPlan::JustCheck(j) => {
            out.push("--justfile".to_owned());
            let mut path = worktree.to_owned();
            path.append("/");
            path.append(j.name());
            out.push(path);
            out.push("--shell".to_owned());
            out.push("/bin/sh".to_owned());
            out.push("check".to_owned());
        },
    }
    assert(event::texts(out@) =~= plan_args(p, worktree@));
    out
}

/// Where `just` is looked for, in this order: where the system installs programs, and
/// then where the operator does, under an absolute home directory.
pub open spec fn just_places(home: Option<Seq<char>>) -> Seq<Seq<char>> {
    let system = seq!["/usr/bin/just"@, "/usr/local/bin/just"@, "/opt/homebrew/bin/just"@];
    match home {
        Some(h) => if h.len() > 0 && h[0] == '/' {
            system + seq![h + "/.cargo/bin/just"@, h + "/.local/bin/just"@]
        } else {
            system
        },
        None => system,
    }
}

/// Where `just` is looked for. It is never looked for along the search path, which others
/// may have set.
pub fn just_locations(home: Option<&str>) -> (r: Vec<String>)
    ensures
        event::texts(r@) == just_places(crate::records::opt_view(home)),
{
    let mut out: Vec<String> = Vec::new();
    out.push("/usr/bin/just".to_owned());
    out.push("/usr/local/bin/just".to_owned());
    out.push("/opt/homebrew/bin/just".to_owned());
    match home {
        Some(h) => {
            if h.unicode_len() > 0 && h.get_char(0) == '/' {
                out.push(text::join2(h, "/.cargo/bin/just"));
                out.push(text::join2(h, "/.local/bin/just"));
            }
        },
        None => {},
    }
    assert(event::texts(out@) =~= just_places(crate::records::opt_view(home)));
    out
}

// ---------------------------------------------------------------------------
// Watching a run

/// Why a run counts as failed, beside its exit status and its deadline.
#[derive(Debug, Clone, Copy, PartialEq, Eq, Structural)]
pub enum Detail {
    /// A process of the plan went on after the plan had ended.
    Survivor,
    /// It could not be made sure that no process goes on.
    Unproven,
}

/// How a run of a plan ended.
#[derive(Debug, Clone, Copy, PartialEq, Eq, Structural)]
pub struct CiRun {
    /// The exit status, where there is one.
    pub status: Option<i32>,
    /// Did the run reach its deadline?
    pub timed_out: bool,
    pub detail: Option<Detail>,
}

/// Has the plan passed: ended by itself with status 0, before the deadline, and with no
/// process left?
pub open spec fn run_passed(r: CiRun) -> bool {
    r.status == Some(0i32) && !r.timed_out && r.detail is None
}

impl CiRun {
    /// A run that could not be started.
    pub fn not_started() -> (r: Self)
        ensures
            r == (CiRun { status: None, timed_out: false, detail: None }),
            !run_passed(r),
    {
        CiRun { status: None, timed_out: false, detail: None }
    }

    /// Has the plan passed?
    pub fn passed(&self) -> (r: bool)
        ensures
            r == run_passed(*self),
    {
        match self.status {
            Some(code) => code == 0 && !self.timed_out && self.detail.is_none(),
            None => false,
        }
    }
}

/// How often a process is polled in each of the two grace periods after a kill.
pub const GRACE_POLLS: u32 = 25;

/// Why the processes of a plan are killed.
#[derive(Debug, Clone, Copy, PartialEq, Eq, Structural)]
pub enum KillReason {
    /// The deadline has come.
    Deadline,
    /// A process goes on after the plan has ended.
    Survivor,
    /// It cannot be made sure that no process goes on.
    Unproven,
}

/// The state of watching a run.
#[derive(Debug, Clone, Copy, PartialEq, Eq, Structural)]
pub enum Watch {
    /// Ask whether the plan has ended, unless the deadline has come.
    Poll,
    /// The plan has ended: is any process of its group left?
    Probe(Option<i32>),
    /// Kill the process group.
    KillGroup(KillReason),
    /// Wait for the plan, which has ended.
    Collect,
    /// Ask whether the killed plan has ended; `left` polls are left, and `again` says
    /// that it was killed a second time.
    Reap { reason: KillReason, left: u32, again: bool },
    /// Kill the plan itself.
    KillPlan(KillReason),
    /// The run has ended.
    Done(CiRun),
}

/// What is seen of a run.
#[derive(Debug, Clone, Copy, PartialEq, Eq, Structural)]
pub enum Seen {
    /// The deadline has come.
    Deadline,
    /// The plan has ended with this status, or without one.
    Ended(Option<i32>),
    /// The plan goes on.
    GoesOn,
    /// It cannot be told.
    Unknown,
    /// The process group has members.
    GroupAlive,
    /// The process group is empty.
    GroupEmpty,
    /// What was asked for is done.
    Done,
}

/// How a killed run is recorded, where the plan has ended with `status`.
pub open spec fn killed_run(reason: KillReason, status: Option<i32>) -> CiRun {
    match reason {
        KillReason::Deadline => CiRun { status, timed_out: true, detail: None },
        KillReason::Survivor => CiRun {
            status: None,
            timed_out: false,
            detail: Some(Detail::Survivor),
        },
        KillReason::Unproven => CiRun {
            status: None,
            timed_out: false,
            detail: Some(Detail::Unproven),
        },
    }
}

/// The state after `seen`.
pub open spec fn watch_after(w: Watch, seen: Seen) -> Watch {
    match w {
        Watch::Poll => match seen {
            Seen::Deadline => Watch::KillGroup(KillReason::Deadline),
            Seen::Ended(status) => Watch::Probe(status),
            Seen::GoesOn => Watch::Poll,
            _ => Watch::KillGroup(KillReason::Unproven),
        },
        Watch::Probe(status) => match seen {
            Seen::GroupEmpty => Watch::Done(CiRun { status, timed_out: false, detail: None }),
            Seen::GroupAlive => Watch::KillGroup(KillReason::Survivor),
            _ => Watch::KillGroup(KillReason::Unproven),
        },
        Watch::KillGroup(reason) => if reason == KillReason::Survivor {
            Watch::Collect
        } else {
            Watch::Reap { reason, left: GRACE_POLLS, again: false }
        },
        Watch::Collect => Watch::Done(killed_run(KillReason::Survivor, None)),
        Watch::Reap { reason, left, again } => match seen {
            Seen::Ended(status) => Watch::Done(killed_run(reason, status)),
            Seen::GoesOn => if left > 1 {
                Watch::Reap { reason, left: (left - 1) as u32, again }
            } else if again {
                Watch::Done(killed_run(reason, None))
            } else {
                Watch::KillPlan(reason)
            },
            _ => Watch::Done(killed_run(reason, None)),
        },
        Watch::KillPlan(reason) => Watch::Reap { reason, left: GRACE_POLLS, again: true },
        Watch::Done(r) => w,
    }
}

/// How a killed run is recorded.
fn killed(reason: KillReason, status: Option<i32>) -> (r: CiRun)
    ensures
        r == killed_run(reason, status),
{
    match reason {
        KillReason::Deadline => CiRun { status, timed_out: true, detail: None },
        KillReason::Survivor => CiRun {
            status: None,
            timed_out: false,
            detail: Some(Detail::Survivor),
        },
        KillReason::Unproven => CiRun {
            status: None,
            timed_out: false,
            detail: Some(Detail::Unproven),
        },
    }
}

impl Watch {
    /// The first state.
    pub fn start() -> (w: Self)
        ensures
            w == Watch::Poll,
    {
        Watch::Poll
    }

    /// The state after `seen`.
    pub fn next(self, seen: Seen) -> (w: Self)
        ensures
            w == watch_after(self, seen),
    {
        match self {
            Watch::Poll => match seen {
                Seen::Deadline => Watch::KillGroup(KillReason::Deadline),
                Seen::Ended(status) => Watch::Probe(status),
                Seen::GoesOn => Watch::Poll,
                _ => Watch::KillGroup(KillReason::Unproven),
            },
            Watch::Probe(status) => match seen {
                Seen::GroupEmpty => Watch::Done(CiRun { status, timed_out: false, detail: None }),
                Seen::GroupAlive => Watch::KillGroup(KillReason::Survivor),
                _ => Watch::KillGroup(KillReason::Unproven),
            },
            Watch::KillGroup(reason) => if reason == KillReason::Survivor {
                Watch::Collect
            } else {
                Watch::Reap { reason, left: GRACE_POLLS, again: false }
            },
            Watch::Collect => Watch::Done(killed(KillReason::Survivor, None)),
            Watch::Reap { reason, left, again } => match seen {
                Seen::Ended(status) => Watch::Done(killed(reason, status)),
                Seen::GoesOn => if left > 1 {
                    Watch::Reap { reason, left: left - 1, again }
                } else if again {
                    Watch::Done(killed(reason, None))
                } else {
                    Watch::KillPlan(reason)
                },
                _ => Watch::Done(killed(reason, None)),
            },
            Watch::KillPlan(reason) => Watch::Reap { reason, left: GRACE_POLLS, again: true },
            Watch::Done(_) => self,
        }
    }
}

/// A run passes only where the plan ended by itself with status 0 and its process group
/// was seen to be empty: never after a kill, and never after the deadline.
pub proof fn law_pass_needs_empty_group(w: Watch, seen: Seen, r: CiRun)
    requires
        !(w is Done),
        watch_after(w, seen) == Watch::Done(r),
        run_passed(r),
    ensures
        w == Watch::Probe(Some(0i32)),
        seen == Seen::GroupEmpty,
{
}

/// A run that reached its deadline has not passed, whatever status it was reaped with.
pub proof fn law_deadline_is_no_pass(status: Option<i32>)
    ensures
        !run_passed(killed_run(KillReason::Deadline, status)),
{
}

/// How often a killed run can still be polled at most.
pub open spec fn polls_left(w: Watch) -> int {
    match w {
        Watch::Poll => 2 * GRACE_POLLS + 10,
        Watch::Probe(status) => 2 * GRACE_POLLS + 9,
        Watch::KillGroup(reason) => 2 * GRACE_POLLS + 8,
        Watch::Collect => 1,
        Watch::Reap { reason, left, again } => if again {
            1 + left
        } else {
            GRACE_POLLS + 4 + left
        },
        Watch::KillPlan(reason) => GRACE_POLLS + 3,
        Watch::Done(r) => 0,
    }
}

/// Once a run does not simply go on, watching it ends after a bounded number of steps: a
/// process that cannot be killed holds up nothing.
pub proof fn law_watch_ends(w: Watch, seen: Seen)
    requires
        !(w is Done),
        !(w is Poll && seen is GoesOn),
        w matches Watch::Reap { reason, left, again } ==> left <= GRACE_POLLS,
    ensures
        0 <= polls_left(watch_after(w, seen)) < polls_left(w),
        watch_after(w, seen) matches Watch::Reap { reason, left, again } ==> left <= GRACE_POLLS,
{
}

// ---------------------------------------------------------------------------
// The conclusion

/// What is left of the temporary worktree of a run.
#[derive(Debug, Clone, Copy, PartialEq, Eq, Structural)]
pub enum Leftover {
    /// Nothing.
    Nothing,
    /// It could not be removed.
    NotRemoved,
    /// Its directory is still there.
    Directory,
    /// It could not be told whether it is registered.
    NotListed,
    /// It is still registered.
    Registered,
}

/// The state of a run in a temporary worktree.
#[derive(Debug, Clone, Copy, PartialEq, Eq, Structural)]
pub enum CiFlow {
    /// Reserve a path for the worktree.
    Reserve { attempt: u32 },
    /// Add the worktree, at the source of the pull request.
    AddTree,
    /// Run the plan.
    RunPlan,
    /// Record the check.
    Record(CiRun),
    /// Remove the worktree.
    Remove { run: CiRun, recorded: bool },
    /// Is the directory of the worktree gone?
    CheckDirectory { run: CiRun, recorded: bool },
    /// Is the worktree no longer registered?
    ListTrees { run: CiRun, recorded: bool },
    /// The plan has been run.
    Ended { run: CiRun, recorded: bool, left: Leftover },
    /// No path could be reserved, after this many retries.
    NoPath(u32),
    /// The worktree could not be added.
    NoTree,
}

/// What happened.
#[derive(Debug, Clone, Copy, PartialEq, Eq, Structural)]
pub enum CiEvent {
    /// How a piece of work went.
    Went(Went),
    /// How the plan ended.
    Ran(CiRun),
}

/// The state after the work that `s` asks for.
pub open spec fn flow_after(s: CiFlow, e: CiEvent) -> CiFlow {
    let well = e == CiEvent::Went(Went::Well);
    match s {
        CiFlow::Reserve { attempt } => if well {
            CiFlow::AddTree
        } else if attempt < MAX_PATH_RETRIES {
            CiFlow::Reserve { attempt: (attempt + 1) as u32 }
        } else {
            CiFlow::NoPath(attempt)
        },
        CiFlow::AddTree => if well {
            CiFlow::RunPlan
        } else {
            CiFlow::NoTree
        },
        CiFlow::RunPlan => match e {
            CiEvent::Ran(run) => CiFlow::Record(run),
            CiEvent::Went(went) => CiFlow::Record(
                CiRun { status: None, timed_out: false, detail: None },
            ),
        },
        CiFlow::Record(run) => CiFlow::Remove { run, recorded: well },
        CiFlow::Remove { run, recorded } => if well {
            CiFlow::CheckDirectory { run, recorded }
        } else {
            CiFlow::Ended { run, recorded, left: Leftover::NotRemoved }
        },
        CiFlow::CheckDirectory { run, recorded } => if well {
            CiFlow::ListTrees { run, recorded }
        } else {
            CiFlow::Ended { run, recorded, left: Leftover::Directory }
        },
        CiFlow::ListTrees { run, recorded } => CiFlow::Ended {
            run,
            recorded,
            left: match e {
                CiEvent::Went(Went::Well) => Leftover::Nothing,
                CiEvent::Went(Went::Found) => Leftover::Registered,
                _ => Leftover::NotListed,
            },
        },
        CiFlow::Ended { run, recorded, left } => s,
        CiFlow::NoPath(n) => s,
        CiFlow::NoTree => s,
    }
}

impl CiFlow {
    /// The first state.
    pub fn start() -> (s: Self)
        ensures
            s == (CiFlow::Reserve { attempt: 0 }),
    {
        CiFlow::Reserve { attempt: 0 }
    }

    /// The state after the work that this one asks for.
    pub fn next(self, e: CiEvent) -> (s: Self)
        ensures
            s == flow_after(self, e),
    {
        let well = e == CiEvent::Went(Went::Well);
        match self {
            CiFlow::Reserve { attempt } => if well {
                CiFlow::AddTree
            } else if attempt < MAX_PATH_RETRIES {
                CiFlow::Reserve { attempt: attempt + 1 }
            } else {
                CiFlow::NoPath(attempt)
            },
            CiFlow::AddTree => if well {
                CiFlow::RunPlan
            } else {
                CiFlow::NoTree
            },
            CiFlow::RunPlan => match e {
                CiEvent::Ran(run) => CiFlow::Record(run),
                CiEvent::Went(_) => CiFlow::Record(CiRun::not_started()),
            },
            CiFlow::Record(run) => CiFlow::Remove { run, recorded: well },
            CiFlow::Remove { run, recorded } => if well {
                CiFlow::CheckDirectory { run, recorded }
            } else {
                CiFlow::Ended { run, recorded, left: Leftover::NotRemoved }
            },
            CiFlow::CheckDirectory { run, recorded } => if well {
                CiFlow::ListTrees { run, recorded }
            } else {
                CiFlow::Ended { run, recorded, left: Leftover::Directory }
            },
            CiFlow::ListTrees { run, recorded } => CiFlow::Ended {
                run,
                recorded,
                left: match e {
                    CiEvent::Went(Went::Well) => Leftover::Nothing,
                    CiEvent::Went(Went::Found) => Leftover::Registered,
                    _ => Leftover::NotListed,
                },
            },
            _ => self,
        }
    }
}

/// How far a run has come.
pub open spec fn flow_stage(s: CiFlow) -> int {
    match s {
        CiFlow::Reserve { attempt } => 0,
        CiFlow::AddTree => 1,
        CiFlow::RunPlan => 2,
        CiFlow::Record(run) => 3,
        CiFlow::Remove { run, recorded } => 4,
        CiFlow::CheckDirectory { run, recorded } => 5,
        CiFlow::ListTrees { run, recorded } => 6,
        _ => 7,
    }
}

/// The outcome of the plan, once it has been run.
pub open spec fn flow_run(s: CiFlow) -> Option<CiRun> {
    match s {
        CiFlow::Record(run) => Some(run),
        CiFlow::Remove { run, recorded } => Some(run),
        CiFlow::CheckDirectory { run, recorded } => Some(run),
        CiFlow::ListTrees { run, recorded } => Some(run),
        CiFlow::Ended { run, recorded, left } => Some(run),
        _ => None,
    }
}

/// Whatever the outcome of a plan is, its check is recorded next, and only then is the
/// worktree removed. The outcome that was recorded stays as it is.
pub proof fn law_outcome_is_recorded(s: CiFlow, e: CiEvent)
    ensures
        flow_run(s) is Some ==> flow_run(flow_after(s, e)) == flow_run(s),
        flow_run(s) is None && flow_run(flow_after(s, e)) is Some ==> s is RunPlan && flow_after(
            s,
            e,
        ) is Record,
        flow_after(s, e) is Remove ==> s is Record,
        s is RunPlan ==> forall|run: CiRun| e == CiEvent::Ran(run) ==> flow_run(flow_after(s, e))
            == Some(run),
{
}

/// A worktree that was added is either found to be gone at the end, or reported.
pub proof fn law_worktree_is_accounted_for(s: CiFlow, e: CiEvent)
    requires
        !(s is Ended),
        flow_after(s, e) is Ended,
    ensures
        s is Remove || s is CheckDirectory || s is ListTrees,
        flow_after(s, e)->left == Leftover::Nothing <==> s is ListTrees && e == CiEvent::Went(
            Went::Well,
        ),
{
}

/// How many steps a run can still take at most.
pub open spec fn flow_left(s: CiFlow) -> int {
    match s {
        CiFlow::Reserve { attempt } => 7 + (MAX_PATH_RETRIES - attempt),
        _ => 7 - flow_stage(s),
    }
}

/// A run ends, and goes through its stages in order.
pub proof fn law_flow_ends(s: CiFlow, e: CiEvent)
    requires
        flow_stage(s) < 7,
        s matches CiFlow::Reserve { attempt } ==> attempt <= MAX_PATH_RETRIES,
    ensures
        0 <= flow_left(flow_after(s, e)) < flow_left(s),
        flow_stage(s) <= flow_stage(flow_after(s, e)),
        flow_after(s, e) matches CiFlow::Reserve { attempt } ==> attempt <= MAX_PATH_RETRIES,
{
}

/// What is told of a run for which there was no worktree: no path could be reserved, after
/// so many retries, or Git said why it could not add one.
pub open spec fn no_tree_text(retries: Option<u32>, cause: Seq<char>) -> Seq<char> {
    "failed to create temporary worktree for CI run: "@ + (match retries {
        Some(n) => "could not reserve a unique temp worktree path after "@ + text::decimal(n as nat)
            + " attempts"@,
        None => cause,
    })
}

/// What is told of a run for which there was no worktree.
pub fn no_tree_message(retries: Option<u32>, cause: &str) -> (r: String)
    ensures
        r@ == no_tree_text(retries, cause@),
{
    let mut s = "failed to create temporary worktree for CI run: ".to_owned();
    match retries {
        Some(n) => {
            let mut t = "could not reserve a unique temp worktree path after ".to_owned();
            t.append(text::decimal_string(n as u64).as_str());
            t.append(" attempts");
            s.append(t.as_str());
        },
        None => {
            s.append(cause);
        },
    }
    s
}

/// What is told of what is left: `cause` is what Git said, and `tree` the path of the
/// worktree.
pub open spec fn leftover_text(l: Leftover, cause: Seq<char>, tree: Seq<char>) -> Seq<char> {
    (match l {
        Leftover::Nothing => seq![],
        Leftover::NotRemoved => "temp worktree removal failed: "@ + cause,
        Leftover::Directory => "temp worktree directory still exists"@,
        Leftover::NotListed => "worktree verification failed: "@ + cause,
        Leftover::Registered => "temp worktree still registered"@,
    }) + " (worktree left at "@ + tree + ")"@
}

/// What is told of what is left.
fn leftover_string(l: Leftover, cause: &str, tree: &str) -> (r: String)
    ensures
        r@ == leftover_text(l, cause@, tree@),
{
    let mut s = match l {
        Leftover::Nothing => String::new(),
        Leftover::NotRemoved => text::join2("temp worktree removal failed: ", cause),
        Leftover::Directory => "temp worktree directory still exists".to_owned(),
        Leftover::NotListed => text::join2("worktree verification failed: ", cause),
        Leftover::Registered => "temp worktree still registered".to_owned(),
    };
    assert(l is Nothing ==> s@ =~= seq![]);
    s.append(" (worktree left at ");
    s.append(tree);
    s.append(")");
    s
}

/// Why a run has not passed, for the user.
pub open spec fn reason_text(r: CiRun) -> Seq<char> {
    if r.timed_out {
        ": timed out"@
    } else {
        match r.detail {
            Some(Detail::Survivor) => ": left a background process running"@,
            Some(Detail::Unproven) => ": could not prove the process group is empty"@,
            None => match r.status {
                Some(code) => ": exited with status "@ + text::signed_decimal(code as int),
                None => seq![],
            },
        }
    }
}

/// Why a run has not passed, for the user.
fn reason_string(r: &CiRun) -> (s: String)
    ensures
        s@ == reason_text(*r),
{
    if r.timed_out {
        return ": timed out".to_owned();
    }
    match r.detail {
        Some(Detail::Survivor) => ": left a background process running".to_owned(),
        Some(Detail::Unproven) => ": could not prove the process group is empty".to_owned(),
        None => match r.status {
            Some(code) => text::join2(
                ": exited with status ",
                text::signed_decimal_string(code as i64).as_str(),
            ),
            None => {
                let s = String::new();
                assert(s@ =~= seq![]);
                s
            },
        },
    }
}

/// The status that is recorded of a run.
pub open spec fn status_text(passed: bool) -> Seq<char> {
    if passed {
        "success"@
    } else {
        "failed"@
    }
}

/// What is told of a run: a worktree that is left comes first, then a check that could
/// not be recorded (`append_error`), and then how the plan ended.
pub open spec fn conclusion(
    id: int,
    plan: CiPlan,
    run: CiRun,
    append_error: Option<Seq<char>>,
    left: Leftover,
    cause: Seq<char>,
    tree: Seq<char>,
) -> Result<Seq<char>, Seq<char>> {
    let name = "CI run for "@ + messages::entity_name(Entity::Pr, id);
    if left != Leftover::Nothing {
        Err(
            (match append_error {
                Some(e) => "CI run completed but recording the CI Check failed: "@ + e + ";"@,
                None => "CI run recorded "@ + status_text(run_passed(run)) + " but"@,
            }) + " temp worktree cleanup failed: "@ + leftover_text(left, cause, tree),
        )
    } else if append_error is Some {
        Err("CI run completed but recording the CI Check failed: "@ + append_error.unwrap())
    } else if run_passed(run) {
        Ok(name + " passed ("@ + plan_label(plan) + ")"@)
    } else {
        Err(name + " failed ("@ + plan_label(plan) + ")"@ + reason_text(run))
    }
}

/// What is told of a run.
pub fn conclude(
    id: u64,
    plan: CiPlan,
    run: CiRun,
    append_error: Option<&str>,
    left: Leftover,
    cause: &str,
    tree: &str,
) -> (r: Result<String, String>)
    ensures
        match (
            r,
            conclusion(
                id as int,
                plan,
                run,
                crate::records::opt_view(append_error),
                left,
                cause@,
                tree@,
            ),
        ) {
            (Ok(s), Ok(m)) => s@ == m,
            (Err(e), Err(m)) => e@ == m,
            _ => false,
        },
{
    if left != Leftover::Nothing {
        let mut e = match append_error {
            Some(a) => {
                let mut s = text::join2(
                    "CI run completed but recording the CI Check failed: ",
                    a,
                );
                s.append(";");
                s
            },
            None => {
                let mut s = "CI run recorded ".to_owned();
                if run.passed() {
                    s.append("success");
                } else {
                    s.append("failed");
                }
                s.append(" but");
                s
            },
        };
        e.append(" temp worktree cleanup failed: ");
        e.append(leftover_string(left, cause, tree).as_str());
        return Err(e);
    }
    match append_error {
        Some(a) => {
            return Err(
                text::join2("CI run completed but recording the CI Check failed: ", a),
            );
        },
        None => {},
    }
    let mut s = "CI run for ".to_owned();
    s.append(messages::entity_str(Entity::Pr, id).as_str());
    if run.passed() {
        s.append(" passed (");
        s.append(plan.label());
        s.append(")");
        Ok(s)
    } else {
        s.append(" failed (");
        s.append(plan.label());
        s.append(")");
        s.append(reason_string(&run).as_str());
        Err(s)
    }
}

/// Success is told only of a run that passed, whose check was recorded, and of which
/// nothing is left.
pub proof fn law_success_is_whole(
    id: int,
    plan: CiPlan,
    run: CiRun,
    append_error: Option<Seq<char>>,
    left: Leftover,
    cause: Seq<char>,
    tree: Seq<char>,
)
    ensures
        conclusion(id, plan, run, append_error, left, cause, tree) is Ok <==> run_passed(run)
            && append_error is None && left == Leftover::Nothing,
{
}

} // verus!
