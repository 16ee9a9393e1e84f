//! What is made of what `git` says, and who writes.

use crate::git;
use crate::identity;
use crate::oid;
use crate::oid::Oid;
use crate::parser;
use crate::passages;
use crate::render;
use crate::text;
use crate::worktree;
use crate::worktree::Purpose;
use vstd::prelude::*;

verus! {

// ---------------------------------------------------------------------------
// Configuration

/// A configured value reads back from the bytes that `git` writes for it: the value, and a
/// NUL behind it.
pub proof fn law_config_value_reads_back(
    value: Seq<char>,
    silent: bool,
    diagnostic: Seq<char>,
    key: Seq<char>,
)
    requires
        !vstd::utf8::encode_utf8(value).contains(0u8),
    ensures
        git::config_value(
            Some(0i32),
            vstd::utf8::encode_utf8(value).push(0u8),
            silent,
            diagnostic,
            key,
        ) == Ok::<Option<Seq<char>>, Seq<char>>(Some(value)),
{
    let bytes = vstd::utf8::encode_utf8(value);
    assert(bytes.push(0u8).drop_last() =~= bytes);
    vstd::utf8::encode_utf8_valid_utf8(value);
    vstd::utf8::encode_utf8_decode_utf8(value);
}

/// A key has no value where `git` exits with 1 and says nothing at all. Every other failure
/// is an error that names the key and holds what `git` said.
pub proof fn law_config_failures(
    status: Option<i32>,
    stdout: Seq<u8>,
    silent: bool,
    diagnostic: Seq<char>,
    key: Seq<char>,
)
    ensures
        ({
            let r = git::config_value(status, stdout, silent, diagnostic, key);
            let said = text::trimmed(render::shown(diagnostic));
            let absent = status == Some(1i32) && stdout.len() == 0 && silent;
            &&& absent ==> r == Ok::<Option<Seq<char>>, Seq<char>>(None)
            &&& !absent && status != Some(0i32) ==> r is Err && passages::holds(r->Err_0, key)
                && text::ends_with(r->Err_0, said)
            &&& status == Some(0i32) && (stdout.len() == 0 || stdout.last() != 0) ==> r is Err
                && passages::holds(r->Err_0, key)
            &&& status == Some(0i32) && stdout.len() > 0 && stdout.drop_last().contains(0u8)
                ==> r is Err
        }),
{
    let r = git::config_value(status, stdout, silent, diagnostic, key);
    let said = text::trimmed(render::shown(diagnostic));
    if r is Err {
        let e = r->Err_0;
        let a = "repo config is unreadable (git config --get "@;
        let b = " failed): "@;
        let c = "git config --get "@;
        if status is None || status == Some(128i32) {
            assert(e =~= a + key + (b + said));
            passages::lemma_holds(a, key, b + said);
            assert(e.skip(e.len() - said.len()) =~= said);
        } else if status == Some(0i32) {
            let d = " returned malformed output on exit 0"@;
            passages::lemma_holds(c, key, d);
        } else {
            let code = status.unwrap();
            let d = " exited "@ + text::signed_decimal(code as int) + ": "@;
            assert(e =~= c + key + (d + said));
            passages::lemma_holds(c, key, d + said);
            assert(e.skip(e.len() - said.len()) =~= said);
        }
    }
}

// ---------------------------------------------------------------------------
// Merge bases

proof fn lemma_hex_is_no_break(o: Oid)
    ensures
        forall|i: int| 0 <= i < 40 ==> parser::hex_value(#[trigger] oid::oid_text(o)[i]) is Some,
        oid::oid_text(o).len() == 40,
{
    oid::law_oid_reads_back(o);
    let s = oid::oid_text(o);
    assert forall|i: int| 0 <= i < 40 implies parser::hex_value(#[trigger] s[i]) is Some by {
    }
}

proof fn lemma_find_none(s: Seq<char>, c: char, i: int)
    requires
        0 <= i <= s.len(),
        forall|k: int| i <= k < s.len() ==> #[trigger] s[k] != c,
    ensures
        text::find(s, c, i) == s.len(),
    decreases s.len() - i,
{
    if i < s.len() {
        assert(s[i] != c);
        lemma_find_none(s, c, i + 1);
    }
}

proof fn lemma_find_at(s: Seq<char>, c: char, i: int, p: int)
    requires
        0 <= i <= p < s.len(),
        forall|k: int| i <= k < p ==> #[trigger] s[k] != c,
        s[p] == c,
    ensures
        text::find(s, c, i) == p,
    decreases p - i,
{
    if i < p {
        assert(s[i] != c);
        lemma_find_at(s, c, i + 1, p);
    }
}

/// A text without line breaks is one line, whether a line feed stands behind it or not; a
/// line feed, with a carriage return before it or none, parts it from the lines behind it.
pub proof fn law_lines(line: Seq<char>, rest: Seq<char>)
    requires
        line.len() > 0,
        forall|k: int| 0 <= k < line.len() ==> #[trigger] line[k] != '\n' && line[k] != '\r',
    ensures
        text::lines(line) == seq![line],
        text::lines(line + seq!['\n'] + rest) == seq![line] + text::lines(rest),
        text::lines(line + seq!['\r', '\n'] + rest) == seq![line] + text::lines(rest),
        text::lines(seq!['\n'] + rest) == seq![Seq::<char>::empty()] + text::lines(rest),
        text::lines(seq![]) == Seq::<Seq<char>>::empty(),
{
    lemma_find_none(line, '\n', 0);
    let n = line.len() as int;
    let a = line + seq!['\n'] + rest;
    assert(forall|k: int| 0 <= k < n ==> a[k] == line[k]);
    lemma_find_at(a, '\n', 0, n);
    assert(a.take(n) =~= line);
    assert(a.skip(n + 1) =~= rest);
    let b = line + seq!['\r', '\n'] + rest;
    assert(forall|k: int| 0 <= k < n ==> b[k] == line[k]);
    assert(b[n] == '\r' && b[n + 1] == '\n');
    lemma_find_at(b, '\n', 0, n + 1);
    assert(b.take(n + 1) =~= line.push('\r'));
    assert(line.push('\r').drop_last() =~= line);
    assert(b.skip(n + 2) =~= rest);
    let c = seq!['\n'] + rest;
    assert(c[0] == '\n');
    lemma_find_at(c, '\n', 0, 0);
    assert(c.take(0) =~= seq![]);
    assert(c.skip(1) =~= rest);
}

/// One merge base reads back from what `git` writes for it.
pub proof fn law_merge_base_reads_back(
    o: Oid,
    stderr: Seq<char>,
    spawn_error: Option<Seq<char>>,
    shallow: bool,
)
    ensures
        git::merge_base_of(Some(0i32), oid::oid_text(o), stderr, spawn_error, shallow) == Ok::<
            Oid,
            Seq<char>,
        >(o),
        git::merge_base_of(
            Some(0i32),
            oid::oid_text(o) + seq!['\n'],
            stderr,
            spawn_error,
            shallow,
        ) == Ok::<Oid, Seq<char>>(o),
{
    let s = oid::oid_text(o);
    lemma_hex_is_no_break(o);
    oid::law_oid_reads_back(o);
    assert forall|k: int| 0 <= k < s.len() implies #[trigger] s[k] != '\n' && s[k] != '\r' by {
        assert(parser::hex_value(s[k]) is Some);
    }
    law_lines(s, seq![]);
    assert(s + seq!['\n'] + seq![] =~= s + seq!['\n']);
    assert(seq![s] + text::lines(seq![]) =~= seq![s]);
    let ls = seq![s];
    assert(ls.drop_last() =~= Seq::<Seq<char>>::empty());
    assert(git::filled(ls.drop_last()) =~= seq![]);
    assert(git::filled(ls) =~= seq![s]);
    assert(parser::hex_value(s[0]) is Some && parser::hex_value(s[39]) is Some);
    assert(!text::is_white(s[0]) && !text::is_white(s.last()));
    text::law_trimmed_of_padded(seq![], s, seq![]);
    assert(seq![] + s + seq![] =~= s);
}

/// Where no merge base is found, the user learns whether the history is shallow.
pub proof fn law_shallow_history_is_told(stderr: Seq<char>)
    ensures
        ({
            let cut = git::merge_base_of(Some(1i32), seq![], stderr, None, true);
            let whole = git::merge_base_of(Some(1i32), seq![], stderr, None, false);
            &&& cut is Err && whole is Err
            &&& text::starts_with(cut->Err_0, "no merge base (shallow history)"@)
            &&& !text::starts_with(whole->Err_0, "no merge base (shallow history)"@)
        }),
{
    reveal_strlit("no merge base (shallow history)");
    reveal_strlit("no merge base (shallow history) — deepen/unshallow the repository first");
    reveal_strlit(
        "no merge base — the source/base histories are unrelated, or history is shallow; deepen/unshallow before creating a PR",
    );
    let cut = git::no_merge_base(true);
    let whole = git::no_merge_base(false);
    let said = "no merge base (shallow history)"@;
    let lines = text::lines(Seq::<char>::empty());
    assert(lines.len() == 0);
    assert(git::filled(lines).len() == 0);
    assert(cut.take(said.len() as int) =~= said);
    assert(said[14] == '(' && whole[14] != '(');
    assert(whole.take(said.len() as int)[14] == whole[14]);
}

/// Two merge bases are refused with their number, no merge base is told, and a failure of
/// `git` is told with what it said.
pub proof fn law_merge_base_failures(
    a: Oid,
    b: Oid,
    code: i32,
    stderr: Seq<char>,
    e: Seq<char>,
    shallow: bool,
)
    requires
        code != 0,
        code != 1,
    ensures
        git::merge_base_of(
            Some(0i32),
            oid::oid_text(a) + seq!['\n'] + oid::oid_text(b),
            stderr,
            None,
            shallow,
        ) is Err,
        git::merge_base_of(Some(0i32), seq![], stderr, None, shallow) is Err,
        git::merge_base_of(Some(1i32), seq![], stderr, None, shallow) == git::merge_base_of(
            Some(0i32),
            seq![],
            stderr,
            None,
            shallow,
        ),
        git::merge_base_of(Some(1i32), seq![], stderr, None, true) != git::merge_base_of(
            Some(1i32),
            seq![],
            stderr,
            None,
            false,
        ),
        git::merge_base_of(Some(code), seq![], stderr, None, shallow) is Err,
        text::ends_with(
            git::merge_base_of(Some(code), seq![], stderr, None, shallow)->Err_0,
            text::trimmed(stderr),
        ),
        git::merge_base_of(None, seq![], stderr, Some(e), shallow) is Err,
        text::ends_with(git::merge_base_of(None, seq![], stderr, Some(e), shallow)->Err_0, e),
{
    let x = oid::oid_text(a);
    let y = oid::oid_text(b);
    lemma_hex_is_no_break(a);
    lemma_hex_is_no_break(b);
    assert forall|k: int| 0 <= k < x.len() implies #[trigger] x[k] != '\n' && x[k] != '\r' by {
        assert(parser::hex_value(x[k]) is Some);
    }
    assert forall|k: int| 0 <= k < y.len() implies #[trigger] y[k] != '\n' && y[k] != '\r' by {
        assert(parser::hex_value(y[k]) is Some);
    }
    law_lines(x, y);
    law_lines(y, seq![]);
    let ls = seq![x, y];
    assert(seq![x] + seq![y] =~= ls);
    assert(ls.drop_last() =~= seq![x]);
    assert(seq![x].drop_last() =~= Seq::<Seq<char>>::empty());
    assert(git::filled(Seq::<Seq<char>>::empty()) =~= seq![]);
    assert(git::filled(seq![x]) =~= seq![x]);
    assert(git::filled(ls) =~= ls);
    reveal_strlit("no merge base (shallow history) — deepen/unshallow the repository first");
    reveal_strlit(
        "no merge base — the source/base histories are unrelated, or history is shallow; deepen/unshallow before creating a PR",
    );
    assert(git::no_merge_base(true).len() != git::no_merge_base(false).len());
    let p = "git merge-base failed: "@;
    let t = text::trimmed(stderr);
    assert((p + t).skip((p + t).len() - t.len()) =~= t);
    assert((p + e).skip((p + e).len() - e.len()) =~= e);
}

/// A diff is what `git` wrote, where it succeeded; a failure is told.
pub proof fn law_diff(status: Option<i32>, shown: Seq<char>, e: Seq<char>)
    ensures
        git::diff_value(Some(0i32), shown, None) == Ok::<Seq<char>, Seq<char>>(
            text::trimmed_end(shown),
        ),
        status != Some(0i32) ==> git::diff_value(status, shown, None) is Err,
        git::diff_value(status, shown, Some(e)) is Err,
        text::ends_with(git::diff_value(status, shown, Some(e))->Err_0, e),
{
    let p = "git diff failed: "@;
    assert((p + e).skip((p + e).len() - e.len()) =~= e);
}

/// A list of worktrees is what `git` wrote, where it succeeded; a failure is told.
pub proof fn law_worktree_list(status: Option<i32>, shown: Seq<char>, e: Seq<char>)
    ensures
        git::list_output(Some(0i32), shown, None) == Ok::<Seq<char>, Seq<char>>(shown),
        status != Some(0i32) ==> git::list_output(status, shown, None) is Err,
        git::list_output(None, shown, Some(e)) is Err,
        text::ends_with(git::list_output(None, shown, Some(e))->Err_0, e),
{
    let p = "git worktree list failed: "@;
    assert((p + e).skip((p + e).len() - e.len()) =~= e);
}

// ---------------------------------------------------------------------------
// Worktrees

/// Each `worktree` line names its path, in order, and no other line names any.
pub proof fn law_registered_paths(lines: Seq<Seq<char>>, path: Seq<char>, other: Seq<char>)
    requires
        !text::starts_with(other, "worktree "@),
    ensures
        worktree::registered_paths(seq![]) == Seq::<Seq<char>>::empty(),
        worktree::registered_paths(lines.push("worktree "@ + path)) == worktree::registered_paths(
            lines,
        ).push(path),
        worktree::registered_paths(lines.push(other)) == worktree::registered_paths(lines),
{
    reveal_strlit("worktree ");
    let l = "worktree "@ + path;
    assert("worktree "@.len() == 9);
    assert(l.take(9) =~= "worktree "@);
    assert(l.skip(9) =~= path);
    assert(lines.push(l).drop_last() =~= lines);
    assert(lines.push(other).drop_last() =~= lines);
}

/// A branch is checked out where a line of the list says so, and the name of another branch
/// that begins alike says nothing of it.
pub proof fn law_checked_out(line: Seq<char>, rest: Seq<char>, base: Seq<char>)
    requires
        line.len() > 0,
        forall|k: int| 0 <= k < line.len() ==> #[trigger] line[k] != '\n' && line[k] != '\r',
    ensures
        worktree::checked_out(line + seq!['\n'] + rest, base) <==> text::trimmed(line)
            == "branch refs/heads/"@ + base || worktree::checked_out(rest, base),
        !worktree::checked_out(seq![], base),
{
    law_lines(line, rest);
    let all = text::lines(line + seq!['\n'] + rest);
    let tail = text::lines(rest);
    assert(all =~= seq![line] + tail);
    assert(all[0] == line);
    assert(text::lines(seq![]).len() == 0);
    if worktree::checked_out(rest, base) {
        let k = choose|k: int|
            0 <= k < tail.len() && text::trimmed(#[trigger] tail[k]) == "branch refs/heads/"@ + base;
        assert(all[k + 1] == tail[k]);
    }
    if worktree::checked_out(line + seq!['\n'] + rest, base) {
        let k = choose|k: int|
            0 <= k < all.len() && text::trimmed(#[trigger] all[k]) == "branch refs/heads/"@ + base;
        if k > 0 {
            assert(all[k] == tail[k - 1]);
        }
    }
}

/// A temporary worktree is added detached, at the given path and commit; for a CI run the
/// hooks of the repository are switched off, and for a merge they are not.
pub proof fn law_worktree_is_added(path: Seq<char>, commit: Oid)
    ensures
        ({
            let plain = seq!["worktree"@, "add"@, "--detach"@, path, oid::oid_text(commit)];
            &&& worktree::add_args(Purpose::Merge, path, commit) == plain
            &&& worktree::add_args(Purpose::Ci, path, commit) == seq![
                "-c"@,
                "core.hooksPath=/dev/null"@,
            ] + plain
        }),
{
    let plain = seq!["worktree"@, "add"@, "--detach"@, path, oid::oid_text(commit)];
    assert(worktree::add_args(Purpose::Merge, path, commit) =~= plain);
}

spec fn purpose_text(p: Purpose) -> Seq<char> {
    match p {
        Purpose::Merge => "-merge-"@,
        Purpose::Ci => "-ci-"@,
    }
}

/// Temporary worktrees of different pull requests, and of merges and CI runs, have
/// different names.
pub proof fn law_worktree_names_differ(
    p: Purpose,
    q: Purpose,
    a: nat,
    b: nat,
    repository: int,
    process: int,
    attempt: int,
)
    ensures
        worktree::temporary_text(p, a as int, repository, process, attempt)
            == worktree::temporary_text(q, b as int, repository, process, attempt) ==> p == q && a
            == b,
{
    reveal_strlit("git-forge-pr");
    reveal_strlit("-merge-");
    reveal_strlit("-ci-");
    let x = worktree::temporary_text(p, a as int, repository, process, attempt);
    let y = worktree::temporary_text(q, b as int, repository, process, attempt);
    let head = "git-forge-pr"@;
    let tail = worktree::hexadecimal(repository as nat) + "-"@ + text::decimal(process as nat)
        + "-"@ + text::decimal(attempt as nat);
    let d = text::decimal(a);
    let e = text::decimal(b);
    text::law_decimal_reads_back(a);
    text::law_decimal_reads_back(b);
    assert(x =~= head + d + (purpose_text(p) + tail));
    assert(y =~= head + e + (purpose_text(q) + tail));
    if x == y {
        // The digits of the number end at the first hyphen behind the name.
        let n = head.len() as int;
        assert(purpose_text(p)[0] == '-' && purpose_text(q)[0] == '-');
        assert(x[n + d.len()] == '-');
        assert(y[n + e.len()] == '-');
        if d.len() < e.len() {
            assert(y[n + d.len()] == e[d.len() as int]);
            assert(text::is_digit(e[d.len() as int]));
        }
        if e.len() < d.len() {
            assert(x[n + e.len()] == d[e.len() as int]);
            assert(text::is_digit(d[e.len() as int]));
        }
        assert forall|i: int| 0 <= i < d.len() implies d[i] == e[i] by {
            assert(x[n + i] == d[i] && y[n + i] == e[i]);
        }
        assert(d =~= e);
        text::law_decimal_injective(a, b);
        assert(purpose_text(p).len() >= 4 && purpose_text(q).len() >= 4);
        assert(x[n + d.len() + 1] == purpose_text(p)[1]);
        assert(y[n + d.len() + 1] == purpose_text(q)[1]);
        assert(purpose_text(Purpose::Merge)[1] == 'm' && purpose_text(Purpose::Ci)[1] == 'c');
    }
}

// ---------------------------------------------------------------------------
// Who writes

/// A configured name and address that Git accepts are the committer as they are; where one
/// of them is missing, is white space or is not accepted, neither is used.
pub proof fn law_committer(name: Seq<char>, email: Seq<char>, other: Option<Seq<char>>)
    ensures
        text::trimmed(name).len() > 0 && text::trimmed(email).len() > 0
            && identity::is_signature_part(name) && identity::is_signature_part(email)
            ==> identity::committer_of(Some(name), Some(email)) == (name, email),
        !(text::trimmed(name).len() > 0 && identity::is_signature_part(name))
            ==> identity::committer_of(Some(name), other) == ("git-forge"@, "forge@localhost"@),
        !(text::trimmed(email).len() > 0 && identity::is_signature_part(email))
            ==> identity::committer_of(other, Some(email)) == ("git-forge"@, "forge@localhost"@),
        identity::committer_of(None, other) == ("git-forge"@, "forge@localhost"@),
        identity::committer_of(other, None) == ("git-forge"@, "forge@localhost"@),
{
}

/// The actor is the configured address as it is, wherever it is more than white space,
/// whatever the name.
pub proof fn law_actor(email: Seq<char>)
    ensures
        text::trimmed(email).len() > 0 ==> identity::actor_of(Some(email)) == email,
        text::trimmed(email).len() == 0 ==> identity::actor_of(Some(email)) == "forge@localhost"@,
        identity::actor_of(None) == "forge@localhost"@,
{
}

// ---------------------------------------------------------------------------
// Stored text on a terminal

/// Stored text is shown character by character, in order: a control character as `\x` with
/// the two hexadecimal digits of its number, and every other one as it is.
pub proof fn law_shown_by_character(a: Seq<char>, c: char)
    ensures
        render::shown(seq![]) == Seq::<char>::empty(),
        render::shown(a.push(c)) == render::shown(a) + render::shown(seq![c]),
        !render::is_control(c) ==> render::shown(seq![c]) == seq![c],
        render::is_control(c) ==> {
            let s = render::shown(seq![c]);
            &&& s.len() == 4 && s[0] == '\\' && s[1] == 'x'
            &&& parser::hex_value(s[2]) matches Some(h) && parser::hex_value(s[3]) matches Some(l)
                && 16 * h + l == c as int
        },
        render::is_control(c) <==> (c as int) < 32 || 127 <= c as int <= 159,
{
    assert(a.push(c).drop_last() =~= a);
    let one = seq![c];
    assert(one.drop_last() =~= Seq::<char>::empty());
    assert(render::shown(one.drop_last()) =~= seq![]);
    assert(render::shown(one) =~= render::shown_char(c));
    if render::is_control(c) {
        let n = c as int;
        assert(0 <= n / 16 < 10);
        assert(0 <= n % 16 < 16);
    }
}

/// Trimming takes white space from both ends and nothing else: the text is white space, what
/// is left, and white space, and what is left neither begins nor ends with any.
pub proof fn law_trimmed_is_the_middle(s: Seq<char>) -> (r: (Seq<char>, Seq<char>))
    ensures
        s == r.0 + text::trimmed(s) + r.1,
        text::all_white(r.0),
        text::all_white(r.1),
        text::trimmed(s).len() > 0 ==> !text::is_white(text::trimmed(s)[0]) && !text::is_white(
            text::trimmed(s).last(),
        ),
{
    let t = text::trimmed_start(s);
    let before = lemma_trimmed_start(s);
    passages::lemma_trimmed_end(t);
    let m = text::trimmed(s);
    let after = t.skip(m.len() as int);
    assert(t =~= m + after);
    assert forall|i: int| 0 <= i < after.len() implies text::is_white(#[trigger] after[i]) by {
        assert(after[i] == t[m.len() + i]);
    }
    assert(s =~= before + m + after);
    if m.len() > 0 {
        assert(t.take(m.len() as int)[0] == t[0]);
    }
    (before, after)
}

proof fn lemma_trimmed_start(s: Seq<char>) -> (before: Seq<char>)
    ensures
        s == before + text::trimmed_start(s),
        text::all_white(before),
        text::trimmed_start(s).len() > 0 ==> !text::is_white(text::trimmed_start(s)[0]),
    decreases s.len(),
{
    if s.len() > 0 && text::is_white(s[0]) {
        let rest = lemma_trimmed_start(s.skip(1));
        let before = seq![s[0]] + rest;
        let t = text::trimmed_start(s);
        assert(t == text::trimmed_start(s.skip(1)));
        assert(s =~= seq![s[0]] + s.skip(1));
        assert(before + t =~= seq![s[0]] + (rest + t));
        assert forall|i: int| 0 <= i < before.len() implies text::is_white(#[trigger] before[i]) by {
            if i > 0 {
                assert(before[i] == rest[i - 1]);
            }
        }
        before
    } else {
        assert(s =~= seq![] + s);
        seq![]
    }
}

} // verus!
