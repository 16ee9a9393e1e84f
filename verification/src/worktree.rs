//! Worktrees: what `git worktree list --porcelain` says, the temporary ones, and the
//! commands for them.

use crate::event;
use crate::json;
use crate::oid;
use crate::oid::Oid;
use crate::text;
use vstd::prelude::*;

verus! {

/// The paths that the records of a worktree list name, in their order.
pub open spec fn registered_paths(lines: Seq<Seq<char>>) -> Seq<Seq<char>>
    decreases lines.len(),
{
    if lines.len() == 0 {
        seq![]
    } else {
        let before = registered_paths(lines.drop_last());
        if text::starts_with(lines.last(), "worktree "@) {
            before.push(lines.last().skip(9))
        } else {
            before
        }
    }
}

/// The paths of the registered worktrees.
pub fn registered_worktrees(porcelain: &str) -> (r: Vec<String>)
    ensures
        event::texts(r@) == registered_paths(text::lines(porcelain@)),
{
    let v = text::chars_of(porcelain);
    let lines = text::split_lines(v.as_slice());
    let ghost all = text::lines(porcelain@);
    let mut out: Vec<String> = Vec::new();
    let mut i: usize = 0;
    assert(all.take(0) =~= seq![]);
    assert(event::texts(out@) =~= seq![]);
    while i < lines.len()
        invariant
            i <= lines@.len(),
            text::pieces(lines@) == all,
            event::texts(out@) == registered_paths(all.take(i as int)),
        decreases lines@.len() - i,
    {
        let line = lines[i].as_slice();
        proof {
            assert(all[i as int] == line@);
            assert(all.take(i + 1).drop_last() =~= all.take(i as int));
            assert(all.take(i + 1).last() == line@);
            reveal_strlit("worktree ");
            assert("worktree "@.len() == 9);
        }
        if text::has_prefix(line, "worktree ") {
            let ghost before = event::texts(out@);
            let path = text::string_of(line, 9, line.len());
            assert(path@ =~= line@.skip(9));
            let ghost shown = path@;
            out.push(path);
            assert(event::texts(out@) =~= before.push(shown));
        }
        i = i + 1;
    }
    assert(all.take(i as int) =~= all);
    out
}

/// Does a worktree list name `path`? A path that only begins alike is another path.
pub fn worktree_registered_path(porcelain: &str, path: &str) -> (r: bool)
    ensures
        r == registered_paths(text::lines(porcelain@)).contains(path@),
{
    let paths = registered_worktrees(porcelain);
    is_among(paths.as_slice(), path)
}

/// Is `path` one of the paths? They are compared as they are spelled.
pub fn is_among(paths: &[String], path: &str) -> (r: bool)
    ensures
        r == event::texts(paths@).contains(path@),
{
    let ghost all = event::texts(paths@);
    let mut i: usize = 0;
    while i < paths.len()
        invariant
            i <= paths@.len(),
            event::texts(paths@) == all,
            forall|k: int| 0 <= k < i ==> #[trigger] all[k] != path@,
        decreases paths@.len() - i,
    {
        assert(all[i as int] == paths@[i as int]@);
        if text::same(paths[i].as_str(), path) {
            return true;
        }
        i = i + 1;
    }
    false
}

/// Is the branch `base` checked out in a worktree that the list names?
pub open spec fn checked_out(porcelain: Seq<char>, base: Seq<char>) -> bool {
    exists|k: int|
        0 <= k < text::lines(porcelain).len() && text::trimmed(#[trigger] text::lines(porcelain)[k])
            == "branch refs/heads/"@ + base
}

/// Is the branch `base` checked out in a worktree that the list names?
pub fn branch_checked_out(porcelain: &str, base: &str) -> (r: bool)
    ensures
        r == checked_out(porcelain@, base@),
{
    let want = text::join2("branch refs/heads/", base);
    let v = text::chars_of(porcelain);
    let lines = text::split_lines(v.as_slice());
    let ghost all = text::lines(porcelain@);
    let mut i: usize = 0;
    while i < lines.len()
        invariant
            i <= lines@.len(),
            text::pieces(lines@) == all,
            all == text::lines(porcelain@),
            want@ == "branch refs/heads/"@ + base@,
            forall|k: int| 0 <= k < i ==> text::trimmed(#[trigger] all[k]) != want@,
        decreases lines@.len() - i,
    {
        assert(all[i as int] == lines@[i as int]@);
        if text::is_text(text::trim(lines[i].as_slice()), want.as_str()) {
            return true;
        }
        i = i + 1;
    }
    false
}

// ---------------------------------------------------------------------------
// Temporary worktrees

/// `n` in hexadecimal, without leading zeros.
pub open spec fn hexadecimal(n: nat) -> Seq<char>
    decreases n,
{
    if n < 16 {
        seq![json::hex_char(n as int)]
    } else {
        hexadecimal(n / 16).push(json::hex_char((n % 16) as int))
    }
}

/// `n` in hexadecimal.
fn hexadecimal_string(n: u64) -> (s: String)
    ensures
        s@ == hexadecimal(n as nat),
    decreases n,
{
    let mut s = if n < 16 {
        String::new()
    } else {
        hexadecimal_string(n / 16)
    };
    s.push(json::hex_digit((n % 16) as u8));
    assert(n < 16 ==> s@ =~= hexadecimal(n as nat));
    s
}

/// What a temporary worktree is for.
#[derive(Debug, Clone, Copy, PartialEq, Eq, Structural)]
pub enum Purpose {
    Merge,
    Ci,
}

/// The name of the directory of a temporary worktree: what it is for, a number for the
/// repository, the number of the process, and the number of the try.
pub open spec fn temporary_text(
    purpose: Purpose,
    id: int,
    repository: int,
    process: int,
    attempt: int,
) -> Seq<char> {
    "git-forge-pr"@ + text::decimal(id as nat) + (match purpose {
        Purpose::Merge => "-merge-"@,
        Purpose::Ci => "-ci-"@,
    }) + hexadecimal(repository as nat) + "-"@ + text::decimal(process as nat) + "-"@
        + text::decimal(attempt as nat)
}

/// The name of the directory of a temporary worktree.
pub fn temporary_name(purpose: Purpose, id: u64, repository: u64, process: u32, attempt: u32) -> (r:
    String)
    ensures
        r@ == temporary_text(
            purpose,
            id as int,
            repository as int,
            process as int,
            attempt as int,
        ),
{
    let mut s = "git-forge-pr".to_owned();
    s.append(text::decimal_string(id).as_str());
    match purpose {
        Purpose::Merge => {
            s.append("-merge-");
        },
        Purpose::Ci => {
            s.append("-ci-");
        },
    }
    s.append(hexadecimal_string(repository).as_str());
    s.append("-");
    s.append(text::decimal_string(process as u64).as_str());
    s.append("-");
    s.append(text::decimal_string(attempt as u64).as_str());
    s
}

/// Each try of a run has a name of its own.
pub proof fn law_tries_have_different_names(
    purpose: Purpose,
    id: int,
    repository: int,
    process: int,
    first: nat,
    second: nat,
)
    requires
        first != second,
    ensures
        temporary_text(purpose, id, repository, process, first as int) != temporary_text(
            purpose,
            id,
            repository,
            process,
            second as int,
        ),
{
    let x = temporary_text(purpose, id, repository, process, first as int);
    let y = temporary_text(purpose, id, repository, process, second as int);
    let a = text::decimal(first);
    let b = text::decimal(second);
    if x == y {
        assert(x.len() - a.len() == y.len() - b.len());
        assert(a.len() == b.len());
        let n = x.len() - a.len();
        assert(x.skip(n) =~= a);
        assert(y.skip(n) =~= b);
        text::law_decimal_injective(first, second);
    }
}

/// The arguments of the `git` command that adds a temporary worktree, detached at
/// `commit`. For a CI run no hook of the repository is run.
pub open spec fn add_args(purpose: Purpose, path: Seq<char>, commit: Oid) -> Seq<Seq<char>> {
    (match purpose {
        Purpose::Merge => seq![],
        Purpose::Ci => seq!["-c"@, "core.hooksPath=/dev/null"@],
    }) + seq!["worktree"@, "add"@, "--detach"@, path, oid::oid_text(commit)]
}

/// The arguments of the `git` command that adds a temporary worktree.
pub fn add_command(purpose: Purpose, path: &str, commit: Oid) -> (r: Vec<String>)
    ensures
        event::texts(r@) == add_args(purpose, path@, commit),
{
    let mut out: Vec<String> = Vec::new();
    if purpose == Purpose::Ci {
        out.push("-c".to_owned());
        out.push("core.hooksPath=/dev/null".to_owned());
    }
    out.push("worktree".to_owned());
    out.push("add".to_owned());
    out.push("--detach".to_owned());
    out.push(path.to_owned());
    out.push(commit.to_hex());
    assert(event::texts(out@) =~= add_args(purpose, path@, commit));
    out
}

/// The arguments of the `git` command that removes a temporary worktree.
pub fn remove_command(path: &str) -> (r: Vec<String>)
    ensures
        event::texts(r@) == seq!["worktree"@, "remove"@, "--force"@, path@],
{
    let mut out: Vec<String> = Vec::new();
    out.push("worktree".to_owned());
    out.push("remove".to_owned());
    out.push("--force".to_owned());
    out.push(path.to_owned());
    assert(event::texts(out@) =~= seq!["worktree"@, "remove"@, "--force"@, path@]);
    out
}

} // verus!
