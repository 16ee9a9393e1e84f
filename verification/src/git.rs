//! What the `git` program says: its answers, and which of them are failures.

use crate::event;
use crate::oid;
use crate::oid::Oid;
use crate::render;
use crate::text;
use vstd::prelude::*;

verus! {

// ---------------------------------------------------------------------------
// Configuration

/// Is `b` somewhere in `s`?
fn has_byte(s: &[u8], n: usize, b: u8) -> (r: bool)
    requires
        n <= s@.len(),
    ensures
        r == s@.take(n as int).contains(b),
{
    let mut i: usize = 0;
    while i < n
        invariant
            i <= n <= s@.len(),
            forall|k: int| 0 <= k < i ==> s@[k] != b,
        decreases n - i,
    {
        if s[i] == b {
            assert(s@.take(n as int)[i as int] == b);
            return true;
        }
        i = i + 1;
    }
    assert(forall|k: int| 0 <= k < n ==> s@.take(n as int)[k] == s@[k]);
    false
}

/// Is the output exactly one value with a NUL behind it?
pub open spec fn one_value(stdout: Seq<u8>) -> bool {
    stdout.len() > 0 && stdout.last() == 0 && !stdout.drop_last().contains(0u8)
}

/// The value that `git config --null --get <key>` gave, nothing where the key has none
/// or one that is no UTF-8, or what went wrong. `diagnostic` is what `git` said beside,
/// and `silent` whether it said nothing.
pub open spec fn config_value(
    status: Option<i32>,
    stdout: Seq<u8>,
    silent: bool,
    diagnostic: Seq<char>,
    key: Seq<char>,
) -> Result<Option<Seq<char>>, Seq<char>> {
    match status {
        None => Err(
            "repo config is unreadable (git config --get "@ + key + " failed): "@ + text::trimmed(
                render::shown(diagnostic),
            ),
        ),
        Some(code) => if code == 128 {
            Err(
                "repo config is unreadable (git config --get "@ + key + " failed): "@
                    + text::trimmed(render::shown(diagnostic)),
            )
        } else if code == 0 {
            if !one_value(stdout) {
                Err("git config --get "@ + key + " returned malformed output on exit 0"@)
            } else if vstd::utf8::valid_utf8(stdout.drop_last()) {
                Ok(Some(vstd::utf8::decode_utf8(stdout.drop_last())))
            } else {
                Ok(None)
            }
        } else if code == 1 && stdout.len() == 0 && silent {
            Ok(None)
        } else {
            Err(
                "git config --get "@ + key + " exited "@ + text::signed_decimal(code as int) + ": "@
                    + text::trimmed(render::shown(diagnostic)),
            )
        },
    }
}

/// Does a result agree with its statement?
pub open spec fn value_agrees(
    r: Result<Option<String>, String>,
    m: Result<Option<Seq<char>>, Seq<char>>,
) -> bool {
    match (r, m) {
        (Ok(o), Ok(k)) => event::opt_text(o) == k,
        (Err(e), Err(t)) => e@ == t,
        _ => false,
    }
}

/// What `git` said beside, safe for a terminal and without white space around it.
fn shown_diagnostic(diagnostic: &str) -> (r: String)
    ensures
        r@ == text::trimmed(render::shown(diagnostic@)),
{
    text::trim_string(render::sanitize_terminal(diagnostic).as_str())
}

/// What is told of a configuration that cannot be read.
fn unreadable(key: &str, diagnostic: &str) -> (r: String)
    ensures
        r@ == "repo config is unreadable (git config --get "@ + key@ + " failed): "@ + text::trimmed(
            render::shown(diagnostic@),
        ),
{
    let mut e = "repo config is unreadable (git config --get ".to_owned();
    e.append(key);
    e.append(" failed): ");
    e.append(shown_diagnostic(diagnostic).as_str());
    e
}

/// The value that `git config --null --get <key>` gave. An exit without a status, or with
/// 128, is an unreadable configuration. A value is one text with a NUL behind it. That a
/// key has no value is exit 1 without any output.
pub fn classify_config_output(
    status: Option<i32>,
    stdout: &[u8],
    silent: bool,
    diagnostic: &str,
    key: &str,
) -> (r: Result<Option<String>, String>)
    ensures
        value_agrees(r, config_value(status, stdout@, silent, diagnostic@, key@)),
{
    match status {
        None => Err(unreadable(key, diagnostic)),
        Some(code) => {
            if code == 128 {
                return Err(unreadable(key, diagnostic));
            }
            if code == 0 {
                let n = stdout.len();
                if n == 0 {
                    let mut e = "git config --get ".to_owned();
                    e.append(key);
                    e.append(" returned malformed output on exit 0");
                    return Err(e);
                }
                assert(stdout@.drop_last() =~= stdout@.take(n - 1));
                if stdout[n - 1] != 0 || has_byte(stdout, n - 1, 0) {
                    let mut e = "git config --get ".to_owned();
                    e.append(key);
                    e.append(" returned malformed output on exit 0");
                    return Err(e);
                }
                let raw = vstd::slice::slice_subrange(stdout, 0, n - 1);
                assert(raw@ =~= stdout@.drop_last());
                return match text::from_utf8(raw) {
                    Some(s) => Ok(Some(s)),
                    None => Ok(None),
                };
            }
            if code == 1 && stdout.len() == 0 && silent {
                return Ok(None);
            }
            let mut e = "git config --get ".to_owned();
            e.append(key);
            e.append(" exited ");
            e.append(text::signed_decimal_string(code as i64).as_str());
            e.append(": ");
            e.append(shown_diagnostic(diagnostic).as_str());
            Err(e)
        },
    }
}

/// The value that `git config --null --get <key>` gave, from its raw output.
pub fn classify_config_get(
    status: Option<i32>,
    stdout: &[u8],
    stderr: &[u8],
    key: &str,
) -> (r: Result<Option<String>, String>)
    ensures
        value_agrees(
            r,
            config_value(status, stdout@, stderr@.len() == 0, text::utf8_lossy(stderr@), key@),
        ),
        vstd::utf8::valid_utf8(stderr@) ==> text::utf8_lossy(stderr@) == vstd::utf8::decode_utf8(
            stderr@,
        ),
{
    let diagnostic = text::from_utf8_lossy(stderr);
    classify_config_output(status, stdout, stderr.len() == 0, diagnostic.as_str(), key)
}

/// No control character of the configuration reaches the terminal through the part of
/// an error that `git` wrote.
pub proof fn law_diagnostic_is_plain(diagnostic: Seq<char>)
    ensures
        render::is_plain(text::trimmed(render::shown(diagnostic))),
{
    render::law_shown_has_no_controls(diagnostic);
    let s = render::shown(diagnostic);
    lemma_trimmed_start_plain(s);
    lemma_trimmed_end_plain(text::trimmed_start(s));
}

proof fn lemma_trimmed_start_plain(s: Seq<char>)
    requires
        render::is_plain(s),
    ensures
        render::is_plain(text::trimmed_start(s)),
    decreases s.len(),
{
    if s.len() > 0 && text::is_white(s[0]) {
        let t = s.skip(1);
        assert forall|i: int| 0 <= i < t.len() implies !render::is_control(#[trigger] t[i]) by {
            assert(t[i] == s[i + 1]);
        }
        lemma_trimmed_start_plain(t);
    }
}

proof fn lemma_trimmed_end_plain(s: Seq<char>)
    requires
        render::is_plain(s),
    ensures
        render::is_plain(text::trimmed_end(s)),
    decreases s.len(),
{
    if s.len() > 0 && text::is_white(s.last()) {
        let t = s.drop_last();
        assert forall|i: int| 0 <= i < t.len() implies !render::is_control(#[trigger] t[i]) by {
            assert(t[i] == s[i]);
        }
        lemma_trimmed_end_plain(t);
    }
}

// ---------------------------------------------------------------------------
// Lists of worktrees

/// The output of `git worktree list`, or what is told of its failure: `spawn_error` says
/// why `git` could not be started.
pub open spec fn list_output(
    status: Option<i32>,
    stdout: Seq<char>,
    spawn_error: Option<Seq<char>>,
) -> Result<Seq<char>, Seq<char>> {
    if status == Some(0i32) {
        Ok(stdout)
    } else if status is None && spawn_error is Some {
        Err("git worktree list failed: "@ + spawn_error.unwrap())
    } else {
        Err("git worktree list failed"@)
    }
}

/// The output of `git worktree list`, or what is told of its failure.
pub fn worktree_list_output(
    status: Option<i32>,
    stdout: &str,
    spawn_error: Option<&str>,
) -> (r: Result<String, String>)
    ensures
        match (r, list_output(status, stdout@, crate::records::opt_view(spawn_error))) {
            (Ok(s), Ok(m)) => s@ == m,
            (Err(e), Err(m)) => e@ == m,
            _ => false,
        },
{
    match status {
        Some(code) => if code == 0 {
            Ok(stdout.to_owned())
        } else {
            Err("git worktree list failed".to_owned())
        },
        None => match spawn_error {
            Some(e) => Err(text::join2("git worktree list failed: ", e)),
            None => Err("git worktree list failed".to_owned()),
        },
    }
}

// ---------------------------------------------------------------------------
// Merge bases

/// The lines that are not empty.
pub open spec fn filled(lines: Seq<Seq<char>>) -> Seq<Seq<char>>
    decreases lines.len(),
{
    if lines.len() == 0 {
        seq![]
    } else if lines.last().len() == 0 {
        filled(lines.drop_last())
    } else {
        filled(lines.drop_last()).push(lines.last())
    }
}

/// What is told where there is no merge base.
pub open spec fn no_merge_base(shallow: bool) -> Seq<char> {
    if shallow {
        "no merge base (shallow history) — deepen/unshallow the repository first"@
    } else {
        "no merge base — the source/base histories are unrelated, or history is shallow; deepen/unshallow before creating a PR"@
    }
}

/// The one merge base that `git merge-base --all` gave, or what is told: no base, several
/// bases, a failure of `git`, or an answer that is no id.
pub open spec fn merge_base_of(
    status: Option<i32>,
    stdout: Seq<char>,
    stderr: Seq<char>,
    spawn_error: Option<Seq<char>>,
    shallow: bool,
) -> Result<Oid, Seq<char>> {
    let bases = filled(text::lines(stdout));
    match status {
        None => match spawn_error {
            Some(e) => Err("git merge-base failed: "@ + e),
            None => Err("git merge-base failed"@),
        },
        Some(code) => if code == 1 && bases.len() == 0 {
            Err(no_merge_base(shallow))
        } else if code != 0 {
            Err("git merge-base failed: "@ + text::trimmed(stderr))
        } else if bases.len() == 0 {
            Err(no_merge_base(shallow))
        } else if bases.len() != 1 {
            Err(
                "multiple merge bases ("@ + text::decimal(bases.len())
                    + ") suggest a criss-cross history; cannot create the PR"@,
            )
        } else {
            match oid::oid_of(text::trimmed(bases[0])) {
                Some(o) => Ok(o),
                None => Err("invalid merge-base oid"@),
            }
        },
    }
}

/// What is told where there is no merge base.
fn zero_merge_base_error(shallow: bool) -> (r: String)
    ensures
        r@ == no_merge_base(shallow),
{
    if shallow {
        "no merge base (shallow history) — deepen/unshallow the repository first".to_owned()
    } else {
        "no merge base — the source/base histories are unrelated, or history is shallow; deepen/unshallow before creating a PR".to_owned()
    }
}

/// The lines of `s` that are not empty.
fn filled_lines(s: &str) -> (r: Vec<Vec<char>>)
    ensures
        text::pieces(r@) == filled(text::lines(s@)),
{
    let v = text::chars_of(s);
    let lines = text::split_lines(v.as_slice());
    let ghost all = text::lines(s@);
    let mut out: Vec<Vec<char>> = Vec::new();
    let mut i: usize = 0;
    assert(all.take(0) =~= seq![]);
    assert(text::pieces(out@) =~= seq![]);
    while i < lines.len()
        invariant
            i <= lines@.len(),
            text::pieces(lines@) == all,
            text::pieces(out@) == filled(all.take(i as int)),
        decreases lines@.len() - i,
    {
        proof {
            assert(all[i as int] == lines@[i as int]@);
            assert(all.take(i + 1).drop_last() =~= all.take(i as int));
            assert(all.take(i + 1).last() == all[i as int]);
        }
        if lines[i].len() > 0 {
            let ghost before = text::pieces(out@);
            let line = text::copy(lines[i].as_slice());
            let ghost shown = line@;
            out.push(line);
            assert(text::pieces(out@) =~= before.push(shown));
        }
        i = i + 1;
    }
    assert(all.take(i as int) =~= all);
    out
}

/// The one merge base that `git merge-base --all` gave.
pub fn require_single_merge_base(
    status: Option<i32>,
    stdout: &str,
    stderr: &str,
    spawn_error: Option<&str>,
    shallow: bool,
) -> (r: Result<Oid, String>)
    ensures
        match (
            r,
            merge_base_of(
                status,
                stdout@,
                stderr@,
                crate::records::opt_view(spawn_error),
                shallow,
            ),
        ) {
            (Ok(o), Ok(m)) => o == m,
            (Err(e), Err(m)) => e@ == m,
            _ => false,
        },
{
    let bases = filled_lines(stdout);
    let ghost model = filled(text::lines(stdout@));
    assert(bases@.len() == model.len());
    match status {
        None => match spawn_error {
            Some(e) => Err(text::join2("git merge-base failed: ", e)),
            None => Err("git merge-base failed".to_owned()),
        },
        Some(code) => {
            if code == 1 && bases.len() == 0 {
                return Err(zero_merge_base_error(shallow));
            }
            if code != 0 {
                return Err(
                    text::join2("git merge-base failed: ", text::trim_string(stderr).as_str()),
                );
            }
            if bases.len() == 0 {
                return Err(zero_merge_base_error(shallow));
            }
            if bases.len() != 1 {
                let mut e = "multiple merge bases (".to_owned();
                e.append(text::decimal_string(bases.len() as u64).as_str());
                e.append(") suggest a criss-cross history; cannot create the PR");
                return Err(e);
            }
            assert(model[0] == bases@[0]@);
            let t = text::trim(bases[0].as_slice());
            assert(t@.subrange(0, t@.len() as int) =~= t@);
            let s = text::string_of(t, 0, t.len());
            match Oid::from_hex(s.as_str()) {
                Some(o) => Ok(o),
                None => Err("invalid merge-base oid".to_owned()),
            }
        },
    }
}

/// Can a pull request lead from one branch to the other? The branches must differ, and so
/// must their heads.
pub fn check_ends(source: &str, base: &str, source_head: Oid, base_head: Oid) -> (r: Result<
    (),
    String,
>)
    ensures
        match r {
            Ok(_) => source@ != base@ && source_head != base_head,
            Err(e) => if source@ == base@ {
                e@ == "source and base branch must differ (no self-PR)"@
            } else {
                source_head == base_head && e@
                    == "source and base branches resolve to the same commit (no self-PR)"@
            },
        },
{
    if text::same(source, base) {
        return Err("source and base branch must differ (no self-PR)".to_owned());
    }
    if source_head == base_head {
        return Err(
            "source and base branches resolve to the same commit (no self-PR)".to_owned(),
        );
    }
    Ok(())
}

/// The arguments of the `git` command that finds the best common ancestors.
pub fn merge_base_command(base: Oid, source: Oid) -> (r: Vec<String>)
    ensures
        event::texts(r@) == seq![
            "merge-base"@,
            "--all"@,
            oid::oid_text(base),
            oid::oid_text(source),
        ],
{
    let mut out: Vec<String> = Vec::new();
    out.push("merge-base".to_owned());
    out.push("--all".to_owned());
    out.push(base.to_hex());
    out.push(source.to_hex());
    assert(event::texts(out@) =~= seq![
        "merge-base"@,
        "--all"@,
        oid::oid_text(base),
        oid::oid_text(source),
    ]);
    out
}

/// The arguments of the `git` command that reads a configured value byte for byte.
pub fn config_command(key: &str) -> (r: Vec<String>)
    ensures
        event::texts(r@) == seq!["config"@, "--null"@, "--get"@, key@],
{
    let mut out: Vec<String> = Vec::new();
    out.push("config".to_owned());
    out.push("--null".to_owned());
    out.push("--get".to_owned());
    out.push(key.to_owned());
    assert(event::texts(out@) =~= seq!["config"@, "--null"@, "--get"@, key@]);
    out
}

// ---------------------------------------------------------------------------
// What a run wrote

/// What a run of `git` wrote, as text without the white space around it. UTF-8 is read
/// as it is; bytes that are no UTF-8 count as replacement characters.
pub fn output_text(bytes: &[u8]) -> (r: String)
    ensures
        r@ == text::trimmed(text::utf8_lossy(bytes@)),
        vstd::utf8::valid_utf8(bytes@) ==> text::utf8_lossy(bytes@) == vstd::utf8::decode_utf8(
            bytes@,
        ),
{
    let shown = text::from_utf8_lossy(bytes);
    text::trim_string(shown.as_str())
}

/// The diagnostic of a run of `git`: what it wrote, or why it could not be started.
pub fn diagnostic_text(stderr: &[u8], spawn_error: Option<&str>) -> (r: String)
    ensures
        match spawn_error {
            Some(e) => r@ == "failed to spawn git: "@ + e@,
            None => r@ == text::trimmed(text::utf8_lossy(stderr@)),
        },
        spawn_error is None && vstd::utf8::valid_utf8(stderr@) ==> text::utf8_lossy(stderr@)
            == vstd::utf8::decode_utf8(stderr@),
{
    match spawn_error {
        Some(e) => text::join2("failed to spawn git: ", e),
        None => output_text(stderr),
    }
}

/// What `git diff` came to, `shown` being what it wrote.
pub open spec fn diff_value(
    status: Option<i32>,
    shown: Seq<char>,
    spawn_error: Option<Seq<char>>,
) -> Result<Seq<char>, Seq<char>> {
    match spawn_error {
        Some(e) => Err("git diff failed: "@ + e),
        None => if status == Some(0i32) {
            Ok(text::trimmed_end(shown))
        } else {
            Err("git diff failed"@)
        },
    }
}

/// The diff of a run of `git diff`, from the text that it wrote.
pub fn diff_of_text(status: Option<i32>, shown: &str, spawn_error: Option<&str>) -> (r: Result<
    String,
    String,
>)
    ensures
        match (r, diff_value(status, shown@, crate::records::opt_view(spawn_error))) {
            (Ok(a), Ok(b)) => a@ == b,
            (Err(a), Err(b)) => a@ == b,
            _ => false,
        },
{
    match spawn_error {
        Some(e) => Err(text::join2("git diff failed: ", e)),
        None => match status {
            Some(0) => Ok(text::trim_end_string(shown)),
            _ => Err("git diff failed".to_owned()),
        },
    }
}

/// The diff of a run of `git diff`, from the bytes that it wrote.
pub fn diff_of_run(status: Option<i32>, stdout: &[u8], spawn_error: Option<&str>) -> (r: Result<
    String,
    String,
>)
    ensures
        match (
            r,
            diff_value(status, text::utf8_lossy(stdout@), crate::records::opt_view(spawn_error)),
        ) {
            (Ok(a), Ok(b)) => a@ == b,
            (Err(a), Err(b)) => a@ == b,
            _ => false,
        },
        vstd::utf8::valid_utf8(stdout@) ==> text::utf8_lossy(stdout@) == vstd::utf8::decode_utf8(
            stdout@,
        ),
{
    let shown = text::from_utf8_lossy(stdout);
    diff_of_text(status, shown.as_str(), spawn_error)
}

} // verus!
