//! Which lines of a justfile are refused, and which are not.

use crate::ci::validate;
use crate::ci::validate::Refusal;
use crate::git_laws;
use crate::passages;
use crate::text;
use vstd::prelude::*;

verus! {

proof fn lemma_no_quote(s: Seq<char>, n: int)
    requires
        0 <= n <= s.len(),
        forall|i: int| 0 <= i < n ==> #[trigger] s[i] != '\'' && s[i] != '"',
    ensures
        validate::open_quote(s, n) is None,
    decreases n,
{
    if n > 0 {
        lemma_no_quote(s, n - 1);
        assert(s[n - 1] != '\'');
    }
}

/// Within a single-quoted text that began at `a`, the quote stays open.
proof fn lemma_in_quote(s: Seq<char>, a: int, n: int)
    requires
        0 <= a < n <= s.len(),
        forall|i: int| 0 <= i < a ==> #[trigger] s[i] != '\'' && s[i] != '"',
        s[a] == '\'',
        forall|i: int| a < i < n ==> #[trigger] s[i] != '\'',
    ensures
        validate::open_quote(s, n) == Some('\''),
    decreases n,
{
    if n == a + 1 {
        lemma_no_quote(s, a);
    } else {
        lemma_in_quote(s, a, n - 1);
        assert(s[n - 1] != '\'');
    }
}

proof fn lemma_not_found(s: Seq<char>, c: char, i: int)
    requires
        0 <= i <= s.len(),
        forall|k: int|
            i <= k < s.len() ==> !(#[trigger] s[k] == c && validate::open_quote(s, k) is None),
    ensures
        validate::find_bare(s, c, i) == s.len(),
    decreases s.len() - i,
{
    if i < s.len() {
        assert(!(s[i] == c && validate::open_quote(s, i) is None));
        lemma_not_found(s, c, i + 1);
    }
}

proof fn lemma_found(s: Seq<char>, c: char, i: int, p: int)
    requires
        0 <= i <= p < s.len(),
        s[p] == c,
        validate::open_quote(s, p) is None,
        forall|k: int| i <= k < p ==> #[trigger] s[k] != c,
    ensures
        validate::find_bare(s, c, i) == p,
    decreases p - i,
{
    if i < p {
        assert(s[i] != c);
        lemma_found(s, c, i + 1, p);
    }
}

proof fn lemma_trims_to_itself(s: Seq<char>)
    requires
        s.len() > 0,
        !text::is_white(s[0]),
        !text::is_white(s.last()),
    ensures
        text::trimmed(s) == s,
        text::trimmed_end(s) == s,
{
    text::law_trimmed_of_padded(seq![], s, seq![]);
    assert(seq![] + s + seq![] =~= s);
}

// ---------------------------------------------------------------------------
// Sources

/// Is `s` what may stand between the word and the quoted path: blanks, a question mark and
/// a name, beginning with a blank, a tab or the question mark?
pub open spec fn is_between(s: Seq<char>) -> bool {
    &&& s.len() > 0
    &&& s[0] == ' ' || s[0] == '\t' || s[0] == '?'
    &&& forall|i: int|
        0 <= i < s.len() ==> #[trigger] s[i] != '\'' && s[i] != '"' && s[i] != '#' && s[i] != ':'
            && s[i] != '='
}

/// A line with a quoted path at its end.
pub open spec fn quoted(head: Seq<char>, path: Seq<char>) -> Seq<char> {
    head + seq!['\''] + path + seq!['\'']
}

proof fn lemma_quoted(head: Seq<char>, path: Seq<char>, c: char)
    requires
        forall|i: int|
            0 <= i < head.len() ==> #[trigger] head[i] != '\'' && head[i] != '"' && head[i] != c,
        forall|i: int| 0 <= i < path.len() ==> #[trigger] path[i] != '\'',
        c != '\'',
    ensures
        validate::find_bare(quoted(head, path), c, 0) == quoted(head, path).len(),
{
    let s = quoted(head, path);
    let a = head.len() as int;
    assert forall|k: int| 0 <= k < s.len() implies !(#[trigger] s[k] == c && validate::open_quote(
        s,
        k,
    ) is None) by {
        if k < a {
            assert(s[k] == head[k]);
        } else if k == a {
            assert(s[k] == '\'');
        } else if k < s.len() - 1 {
            assert forall|i: int| 0 <= i < a implies #[trigger] s[i] != '\'' && s[i] != '"' by {
                assert(s[i] == head[i]);
            }
            assert forall|i: int| a < i < k implies #[trigger] s[i] != '\'' by {
                assert(s[i] == path[i - a - 1]);
            }
            lemma_in_quote(s, a, k);
        } else {
            assert(s[k] == '\'');
        }
    }
    lemma_not_found(s, c, 0);
}

/// An `import` or a `mod` of a quoted path is refused, whatever the path holds, with a
/// question mark, a module name and blanks before it or without.
pub proof fn law_quoted_source_is_refused(kw: Seq<char>, between: Seq<char>, path: Seq<char>)
    requires
        kw == "import"@ || kw == "mod"@,
        is_between(between),
        forall|i: int| 0 <= i < path.len() ==> #[trigger] path[i] != '\'',
    ensures
        validate::check_line(quoted(kw + between, path), None) == (
            Some(Refusal::Source),
            None::<Seq<char>>,
        ),
        !validate::goes_on(quoted(kw + between, path)),
{
    reveal_strlit("import");
    reveal_strlit("mod");
    reveal_strlit("set");
    reveal_strlit(":");
    reveal_strlit(":=");
    reveal_strlit("=");
    let head = kw + between;
    let s = quoted(head, path);
    assert forall|i: int| 0 <= i < head.len() implies #[trigger] head[i] != '\'' && head[i] != '"'
        && head[i] != '#' && head[i] != ':' by {
        if i < kw.len() {
            assert(head[i] == kw[i]);
            assert(kw == "import"@ ==> i < 6);
            assert(kw == "mod"@ ==> i < 3);
        } else {
            assert(head[i] == between[i - kw.len()]);
        }
    }
    lemma_quoted(head, path, '#');
    lemma_quoted(head, path, ':');
    assert(s.take(s.len() as int) =~= s);
    assert(validate::without_comment(s) == s);
    assert(s[0] == kw[0]);
    assert(s.last() == '\'');
    lemma_trims_to_itself(s);
    assert(!validate::is_recipe_head(s)) by {
        let t = text::trimmed_end(s);
        assert(t.skip(t.len() - 1)[0] == t.last());
        assert(":"@[0] == ':');
    }
    assert(s.take(kw.len() as int) =~= kw);
    let rest = s.skip(kw.len() as int);
    assert(rest =~= between + (seq!['\''] + path + seq!['\'']));
    assert(rest[0] == between[0]);
    assert(!text::starts_with(s, "set"@)) by {
        assert(s.take(3)[0] == s[0]);
        assert("set"@[0] == 's');
    }
    // What stands behind the blanks and the question mark begins with no equals sign.
    lemma_no_assignment(between, path);
    assert(validate::is_source(s, kw));
    if kw == "mod"@ {
        assert(s.take(6)[0] == s[0]);
    }
}

/// The first character behind white space is one of the text.
proof fn lemma_dark(between: Seq<char>, tail: Seq<char>, j: int)
    requires
        0 <= j <= between.len(),
        tail.len() > 0,
        tail[0] == '\'',
        forall|i: int|
            0 <= i < between.len() ==> #[trigger] between[i] != '\'' && between[i] != ':'
                && between[i] != '=',
    ensures
        ({
            let t = text::trimmed_start((between + tail).skip(j));
            &&& t.len() > 0
            &&& t[0] != '=' && t[0] != ':'
            &&& exists|k: int|
                j <= k <= between.len() && #[trigger] (between + tail).skip(k) == t
        }),
    decreases between.len() - j,
{
    let all = between + tail;
    let s = all.skip(j);
    if j < between.len() {
        assert(s[0] == between[j]);
        if text::is_white(s[0]) {
            assert(s.skip(1) =~= all.skip(j + 1));
            lemma_dark(between, tail, j + 1);
            let k = choose|k: int|
                j + 1 <= k <= between.len() && #[trigger] all.skip(k) == text::trimmed_start(
                    all.skip(j + 1),
                );
            assert(all.skip(k) == text::trimmed_start(s));
        } else {
            assert(all.skip(j) == text::trimmed_start(s));
        }
    } else {
        assert(s[0] == tail[0]);
        assert(all.skip(j) == text::trimmed_start(s));
    }
}

proof fn lemma_no_assignment(between: Seq<char>, path: Seq<char>)
    requires
        is_between(between),
    ensures
        ({
            let rest = between + (seq!['\''] + path + seq!['\'']);
            let bare = text::trimmed_start(rest);
            let p = if bare.len() > 0 && bare[0] == '?' {
                text::trimmed_start(bare.skip(1))
            } else {
                bare
            };
            !text::starts_with(p, "="@) && !text::starts_with(p, ":="@)
        }),
{
    reveal_strlit(":=");
    reveal_strlit("=");
    let tail = seq!['\''] + path + seq!['\''];
    let rest = between + tail;
    assert(rest.skip(0) =~= rest);
    lemma_dark(between, tail, 0);
    let bare = text::trimmed_start(rest);
    let k = choose|k: int| 0 <= k <= between.len() && #[trigger] rest.skip(k) == bare;
    assert(rest.skip(k) == bare);
    let p = if bare[0] == '?' {
        text::trimmed_start(bare.skip(1))
    } else {
        bare
    };
    if bare[0] == '?' {
        if k == between.len() {
            assert(rest.skip(k)[0] == tail[0]);
        }
        assert(bare.skip(1) =~= rest.skip(k + 1));
        lemma_dark(between, tail, k + 1);
    }
    assert(p.len() > 0 && p[0] != '=' && p[0] != ':');
    if text::starts_with(p, "="@) {
        assert(p.take(1)[0] == p[0]);
        assert("="@[0] == '=');
    }
    if text::starts_with(p, ":="@) {
        assert(p.take(2)[0] == p[0]);
        assert(":="@[0] == ':');
    }
}

/// A variable that is named like the word, and a recipe of that name, are no sources.
pub proof fn law_other_uses_of_the_words(kw: Seq<char>, value: Seq<char>)
    requires
        kw == "import"@ || kw == "mod"@,
        value.len() > 0,
        !text::is_white(value.last()),
        value.last() != ':',
        forall|i: int| 0 <= i < value.len() ==> #[trigger] value[i] != '#',
    ensures
        validate::check_line(kw + " := "@ + value, None).0 is None,
        validate::check_line(kw + ":"@, None).0 is None,
        validate::check_line(kw + ": "@ + value, None).0 is None,
{
    lemma_named_otherwise(kw, value);
    reveal_strlit(":");
    assert(":"@.last() == ':');
    lemma_recipe(kw, ":"@);
    reveal_strlit(": ");
    lemma_recipe(kw, ": "@ + value);
    assert(kw + (": "@ + value) =~= kw + ": "@ + value);
}

proof fn lemma_kw(kw: Seq<char>)
    requires
        kw == "import"@ || kw == "mod"@,
    ensures
        kw.len() >= 3,
        kw[0] == 'i' || kw[0] == 'm',
        forall|i: int|
            0 <= i < kw.len() ==> #[trigger] kw[i] != '\'' && kw[i] != '"' && kw[i] != '#' && kw[i]
                != ':' && !text::is_white(kw[i]) && kw[i] != '[',
{
    reveal_strlit("import");
    reveal_strlit("mod");
}

proof fn lemma_plain_line(s: Seq<char>)
    requires
        s.len() > 0,
        !text::is_white(s[0]),
        !text::is_white(s.last()),
        s[0] != '[',
        s[0] != 's',
        forall|i: int| 0 <= i < s.len() ==> #[trigger] s[i] != '#',
    ensures
        validate::without_comment(s) == s,
        text::trimmed(s) == s,
        text::trimmed_end(s) == s,
        validate::check_line(s, None) == (validate::directive_refusal(s), None::<Seq<char>>),
        validate::directive_refusal(s) == if validate::is_source(s, "import"@)
            || validate::is_source(s, "mod"@) {
            Some(Refusal::Source)
        } else {
            None
        },
{
    lemma_not_found(s, '#', 0);
    assert(s.take(s.len() as int) =~= s);
    lemma_trims_to_itself(s);
    reveal_strlit("set");
    if text::starts_with(s, "set"@) {
        assert(s.take(3)[0] == s[0]);
        assert("set"@[0] == 's');
    }
}

proof fn lemma_recipe(kw: Seq<char>, tail: Seq<char>)
    requires
        kw == "import"@ || kw == "mod"@,
        tail.len() > 0,
        tail[0] == ':',
        tail.len() == 1 || tail[1] != '=',
        !text::is_white(tail.last()),
        forall|i: int| 0 <= i < tail.len() ==> #[trigger] tail[i] != '#',
    ensures
        validate::check_line(kw + tail, None).0 is None,
{
    lemma_kw(kw);
    let s = kw + tail;
    let n = kw.len() as int;
    assert forall|i: int| 0 <= i < s.len() implies #[trigger] s[i] != '#' by {
        if i < n {
            assert(s[i] == kw[i]);
        } else {
            assert(s[i] == tail[i - n]);
        }
    }
    assert(s[0] == kw[0] && s.last() == tail.last());
    lemma_plain_line(s);
    assert forall|i: int| 0 <= i < n implies #[trigger] s[i] != '\'' && s[i] != '"' && s[i] != ':' by {
        assert(s[i] == kw[i]);
    }
    lemma_no_quote(s, n);
    assert(s[n] == tail[0]);
    lemma_found(s, ':', 0, n);
    reveal_strlit(":=");
    let u = s.skip(n);
    if text::starts_with(u, ":="@) {
        assert(u.take(2)[1] == u[1]);
        assert(":="@[1] == '=');
        assert(u[1] == tail[1]);
    }
    assert(validate::is_recipe_head(s));
}

proof fn lemma_named_otherwise(kw: Seq<char>, value: Seq<char>)
    requires
        kw == "import"@ || kw == "mod"@,
        value.len() > 0,
        !text::is_white(value.last()),
        value.last() != ':',
        forall|i: int| 0 <= i < value.len() ==> #[trigger] value[i] != '#',
    ensures
        validate::check_line(kw + " := "@ + value, None).0 is None,
{
    reveal_strlit(" := ");
    reveal_strlit(":=");
    reveal_strlit(":");
    reveal_strlit("import");
    reveal_strlit("mod");
    lemma_kw(kw);
    let tail = " := "@ + value;
    let s = kw + " := "@ + value;
    assert(s =~= kw + tail);
    let n = kw.len() as int;
    assert forall|i: int| 0 <= i < s.len() implies #[trigger] s[i] != '#' by {
        if i < n {
            assert(s[i] == kw[i]);
        } else if i < n + 4 {
            assert(s[i] == " := "@[i - n]);
        } else {
            assert(s[i] == value[i - n - 4]);
        }
    }
    assert(s[0] == kw[0] && s.last() == value.last());
    lemma_plain_line(s);
    let other = if kw == "import"@ {
        "mod"@
    } else {
        "import"@
    };
    assert(!text::starts_with(s, other)) by {
        if text::starts_with(s, other) {
            assert(s.take(other.len() as int)[0] == s[0]);
        }
    }
    // Behind the word stands an assignment.
    let rest = s.skip(n);
    assert(rest =~= tail);
    let bare = text::trimmed_start(rest);
    let after = tail.skip(1);
    assert(rest.skip(1) =~= after);
    assert(rest[0] == ' ');
    assert(after[0] == ':' && after[1] == '=');
    assert(text::trimmed_start(after) == after);
    assert(bare == after);
    assert(after.take(2) =~= ":="@);
    assert(text::starts_with(bare, ":="@));
    assert(!validate::is_source(s, kw));
}

// ---------------------------------------------------------------------------
// Settings

/// The settings that read a file or pick an interpreter, whatever their value.
pub open spec fn loading_settings() -> Seq<Seq<char>> {
    seq![
        "dotenv-path"@,
        "dotenv-filename"@,
        "dotenv-command"@,
        "shell"@,
        "script-interpreter"@,
    ]
}

/// The settings that do so unless they are switched off.
pub open spec fn switched_settings() -> Seq<Seq<char>> {
    seq![
        "fallback"@,
        "dotenv"@,
        "dotenv-load"@,
        "dotenv-required"@,
        "dotenv-override"@,
        "default-script"@,
    ]
}

/// Is `s` made of letters and hyphens?
pub open spec fn is_setting_name(s: Seq<char>) -> bool {
    s.len() > 0 && forall|i: int| 0 <= i < s.len() ==> #[trigger] s[i] == '-' || 'a' <= s[i] <= 'z'
}

proof fn lemma_setting_names(k: int)
    ensures
        0 <= k < 5 ==> is_setting_name(loading_settings()[k]) && validate::always_refused(
            loading_settings()[k],
        ),
        0 <= k < 6 ==> is_setting_name(switched_settings()[k]) && validate::refused_unless_false(
            switched_settings()[k],
        ) && !validate::always_refused(switched_settings()[k]),
{
    reveal_strlit("dotenv-path");
    reveal_strlit("dotenv-filename");
    reveal_strlit("dotenv-command");
    reveal_strlit("shell");
    reveal_strlit("script-interpreter");
    reveal_strlit("fallback");
    reveal_strlit("dotenv");
    reveal_strlit("dotenv-load");
    reveal_strlit("dotenv-required");
    reveal_strlit("dotenv-override");
    reveal_strlit("default-script");
    if 0 <= k < 5 {
        assert(k == 0 || k == 1 || k == 2 || k == 3 || k == 4);
    }
    if 0 <= k < 6 {
        let n = switched_settings()[k];
        assert(k == 0 || k == 1 || k == 2 || k == 3 || k == 4 || k == 5);
        assert("dotenv-path"@.len() == 11 && "dotenv-load"@.len() == 11);
        assert("dotenv-path"@[7] == 'p' && "dotenv-load"@[7] == 'l');
        assert("dotenv-filename"@.len() == 15 && "dotenv-required"@.len() == 15
            && "dotenv-override"@.len() == 15);
        assert("dotenv-filename"@[7] == 'f' && "dotenv-required"@[7] == 'r'
            && "dotenv-override"@[7] == 'o');
        assert("dotenv-command"@.len() == 14 && "default-script"@.len() == 14);
        assert("dotenv-command"@[1] == 'o' && "default-script"@[1] == 'e');
        assert("shell"@.len() == 5 && "fallback"@.len() == 8 && "dotenv"@.len() == 6);
        assert("script-interpreter"@.len() == 18);
    }
}

/// Can `v` be the value of a setting: does it begin and end with visible text, hold no
/// `#`, and not end with a colon?
pub open spec fn is_setting_value(v: Seq<char>) -> bool {
    &&& v.len() > 0
    &&& !text::is_white(v[0])
    &&& v[0] != '=' && v[0] != ':'
    &&& !text::is_white(v.last())
    &&& v.last() != ':'
    &&& forall|i: int| 0 <= i < v.len() ==> #[trigger] v[i] != '#'
}

proof fn lemma_name_end(rest: Seq<char>, i: int, n: int)
    requires
        0 <= i <= n <= rest.len(),
        forall|k: int| i <= k < n ==> !validate::ends_setting_name(#[trigger] rest[k]),
        n < rest.len() ==> validate::ends_setting_name(rest[n]),
    ensures
        validate::setting_name_end(rest, i) == n,
    decreases n - i,
{
    if i < n {
        assert(!validate::ends_setting_name(rest[i]));
        lemma_name_end(rest, i + 1, n);
    }
}

/// A line that sets `name`, with `tail` behind the name.
proof fn lemma_setting(name: Seq<char>, tail: Seq<char>, value: Seq<char>)
    requires
        is_setting_name(name),
        tail.len() == 0 && value.len() == 0 || is_setting_value(value) && tail == " := "@ + value,
    ensures
        ({
            let s = "set "@ + name + tail;
            &&& validate::check_line(s, None).0 == if validate::always_refused(name) || (
            validate::refused_unless_false(name) && value != "false"@) {
                Some(Refusal::Setting)
            } else {
                None
            }
            &&& validate::check_line(s, None).1 is None
        }),
{
    reveal_strlit("set ");
    reveal_strlit("set");
    reveal_strlit(" := ");
    reveal_strlit(":=");
    reveal_strlit(":");
    reveal_strlit("import");
    reveal_strlit("mod");
    let s = "set "@ + name + tail;
    let n = 4 + name.len() as int;
    assert("set "@.len() == 4);
    assert forall|i: int| 0 <= i < s.len() implies #[trigger] s[i] != '#' by {
        if i < 4 {
            assert(s[i] == "set "@[i]);
        } else if i < n {
            assert(s[i] == name[i - 4]);
        } else {
            assert(s[i] == tail[i - n]);
            if i < n + 4 {
                assert(tail[i - n] == " := "@[i - n]);
            } else {
                assert(tail[i - n] == value[i - n - 4]);
            }
        }
    }
    assert(s[0] == 's');
    if tail.len() == 0 {
        assert(s.last() == name[name.len() - 1]);
    } else {
        assert(s.last() == value.last());
    }
    lemma_not_found(s, '#', 0);
    assert(s.take(s.len() as int) =~= s);
    lemma_trims_to_itself(s);
    assert forall|i: int| 0 <= i < n implies #[trigger] s[i] != '\'' && s[i] != '"' && s[i] != ':' by {
        if i < 4 {
            assert(s[i] == "set "@[i]);
        } else {
            assert(s[i] == name[i - 4]);
        }
    }
    if tail.len() == 0 {
        lemma_not_found(s, ':', 0);
    } else {
        assert(s[n] == ' ');
        assert(s[n + 1] == ':' && s[n + 2] == '=');
        lemma_no_quote(s, n + 1);
        lemma_found(s, ':', 0, n + 1);
        assert(s.skip(n + 1).take(2) =~= ":="@);
    }
    assert(!validate::is_recipe_head(s)) by {
        assert(s.skip(s.len() - 1)[0] == s.last());
        assert(":"@[0] == ':');
    }
    assert(s.take(3) =~= "set"@);
    assert(s[3] == ' ');
    let from = s.skip(3);
    let rest = from.skip(1);
    assert(rest =~= name + tail);
    assert(from[0] == ' ');
    assert(rest[0] == name[0]);
    assert(text::trimmed_start(rest) == rest);
    assert(text::trimmed_start(from) == rest);
    let m = name.len() as int;
    assert forall|k: int| 0 <= k < m implies !validate::ends_setting_name(#[trigger] rest[k]) by {
        assert(rest[k] == name[k]);
    }
    if m < rest.len() {
        assert(rest[m] == tail[0]);
        assert(tail[0] == ' ');
    }
    lemma_name_end(rest, 0, m);
    assert(rest.take(m) =~= name);
    assert(rest.skip(m) =~= tail);
    let got = text::trimmed(validate::without_assign(text::trimmed(rest.skip(m))));
    if tail.len() == 0 {
        assert(text::trimmed(tail) =~= seq![]);
        assert(validate::without_assign(seq![]) =~= seq![]);
        assert(got =~= value);
    } else {
        lemma_value(tail, value);
    }
    assert(got == value);
    assert(!text::starts_with(s, "import"@)) by {
        if text::starts_with(s, "import"@) {
            assert(s.take(6)[0] == s[0]);
        }
    }
    assert(!text::starts_with(s, "mod"@)) by {
        if text::starts_with(s, "mod"@) {
            assert(s.take(3)[0] == s[0]);
        }
    }
}

proof fn lemma_value(tail: Seq<char>, value: Seq<char>)
    requires
        is_setting_value(value),
        tail == " := "@ + value,
    ensures
        text::trimmed(validate::without_assign(text::trimmed(tail))) == value,
{
    reveal_strlit(" := ");
    let core = seq![':', '=', ' '] + value;
    assert(tail =~= seq![' '] + core + seq![]);
    assert(core[0] == ':' && core.last() == value.last());
    text::law_trimmed_of_padded(seq![' '], core, seq![]);
    let a = core.skip(1);
    let b = a.skip(1);
    assert(a[0] == '=');
    assert(b =~= seq![' '] + value);
    assert(b[0] == ' ');
    assert(validate::without_assign(b) == b);
    assert(validate::without_assign(a) == b);
    assert(validate::without_assign(core) == b);
    assert(b =~= seq![' '] + value + seq![]);
    text::law_trimmed_of_padded(seq![' '], value, seq![]);
}

/// A setting that reads a file or picks an interpreter is refused, whatever its value; one
/// that can be switched off is refused unless it is `false`.
pub proof fn law_settings_are_refused(k: int, value: Seq<char>)
    requires
        is_setting_value(value),
    ensures
        0 <= k < loading_settings().len() ==> {
            let set = "set "@ + loading_settings()[k];
            &&& validate::check_line(set, None).0 == Some(Refusal::Setting)
            &&& validate::check_line(set + " := "@ + value, None).0 == Some(Refusal::Setting)
        },
        0 <= k < switched_settings().len() ==> {
            let set = "set "@ + switched_settings()[k];
            &&& validate::check_line(set, None).0 == Some(Refusal::Setting)
            &&& value != "false"@ ==> validate::check_line(set + " := "@ + value, None).0 == Some(
                Refusal::Setting,
            )
            &&& value == "false"@ ==> validate::check_line(set + " := "@ + value, None).0 is None
        },
{
    reveal_strlit("false");
    assert("false"@.len() == 5);
    lemma_setting_names(k);
    assert(loading_settings().len() == 5 && switched_settings().len() == 6);
    if 0 <= k < 5 {
        let name = loading_settings()[k];
        lemma_setting(name, seq![], seq![]);
        assert("set "@ + name + seq![] =~= "set "@ + name);
        lemma_setting(name, " := "@ + value, value);
        assert("set "@ + name + (" := "@ + value) =~= "set "@ + name + " := "@ + value);
    }
    if 0 <= k < 6 {
        let name = switched_settings()[k];
        lemma_setting(name, seq![], seq![]);
        assert("set "@ + name + seq![] =~= "set "@ + name);
        lemma_setting(name, " := "@ + value, value);
        assert("set "@ + name + (" := "@ + value) =~= "set "@ + name + " := "@ + value);
    }
}

/// Any other setting is accepted.
pub proof fn law_other_settings_are_accepted(name: Seq<char>, value: Seq<char>)
    requires
        is_setting_name(name),
        !loading_settings().contains(name),
        !switched_settings().contains(name),
        is_setting_value(value),
    ensures
        validate::check_line("set "@ + name, None).0 is None,
        validate::check_line("set "@ + name + " := "@ + value, None).0 is None,
{
    let a = loading_settings();
    let b = switched_settings();
    assert(a[0] == "dotenv-path"@ && a[1] == "dotenv-filename"@ && a[2] == "dotenv-command"@ && a[3]
        == "shell"@ && a[4] == "script-interpreter"@);
    assert(b[0] == "fallback"@ && b[1] == "dotenv"@ && b[2] == "dotenv-load"@ && b[3]
        == "dotenv-required"@ && b[4] == "dotenv-override"@ && b[5] == "default-script"@);
    lemma_setting(name, seq![], seq![]);
    assert("set "@ + name + seq![] =~= "set "@ + name);
    lemma_setting(name, " := "@ + value, value);
    assert("set "@ + name + (" := "@ + value) =~= "set "@ + name + " := "@ + value);
}

// ---------------------------------------------------------------------------
// Bodies of recipes, and comments

/// A comment is no reason to refuse a line.
pub proof fn law_comments_are_accepted(s: Seq<char>)
    ensures
        validate::check_line(seq!['#'] + s, None) == (None::<Refusal>, None::<Seq<char>>),
{
    let line = seq!['#'] + s;
    assert(line[0] == '#');
    lemma_found(line, '#', 0, 0);
    assert(line.take(0) =~= seq![]);
    assert(text::trimmed(Seq::<char>::empty()) =~= seq![]);
}

/// An indented line belongs to the body of a recipe: whatever it says, it is refused only
/// where it is a shebang. (A line that begins with a bracket is read as attributes.)
pub proof fn law_recipe_bodies(indent: Seq<char>, s: Seq<char>)
    requires
        indent.len() > 0,
        forall|i: int| 0 <= i < indent.len() ==> #[trigger] indent[i] == ' ' || indent[i] == '\t',
        s.len() > 0,
        !text::is_white(s[0]),
        s[0] != '[',
    ensures
        validate::check_line(indent + s, None) == (
            if s.len() > 1 && s[0] == '#' && s[1] == '!' {
                Some(Refusal::Shebang)
            } else {
                None::<Refusal>
            },
            None::<Seq<char>>,
        ),
{
    let line = indent + s;
    let n = indent.len() as int;
    assert(text::all_white(indent)) by {
        assert forall|i: int| 0 <= i < indent.len() implies text::is_white(#[trigger] indent[i]) by {
        }
    }
    let k = validate::find_bare(line, '#', 0);
    lemma_found_behind(line, 0, n);
    let shown = validate::without_comment(line);
    assert(shown[0] == line[0]);
    assert(line[0] == indent[0]);
    // What is left of the line begins as the line does.
    let t = text::trimmed(shown);
    let (a, b) = git_laws::law_trimmed_is_the_middle(shown);
    if t.len() > 0 {
        if t[0] == '[' {
            lemma_first_visible(indent, s, a, t, b, k);
        }
    }
    let (c, d) = git_laws::law_trimmed_is_the_middle(line);
    let u = text::trimmed(line);
    reveal_strlit("#!");
    lemma_line_begins(indent, s, c, u, d);
    if text::starts_with(u, "#!"@) {
        assert(u.take(2)[0] == u[0] && u.take(2)[1] == u[1]);
        assert("#!"@[0] == '#' && "#!"@[1] == '!');
    }
    if s.len() > 1 && s[0] == '#' && s[1] == '!' {
        assert(u.take(2) =~= "#!"@);
    }
}

/// Nothing is found in blanks.
proof fn lemma_found_behind(line: Seq<char>, i: int, n: int)
    requires
        0 <= i <= n <= line.len(),
        forall|k: int| i <= k < n ==> #[trigger] line[k] == ' ' || line[k] == '\t',
    ensures
        n <= validate::find_bare(line, '#', i) <= line.len(),
    decreases line.len() - i,
{
    if i < line.len() {
        if i < n {
            assert(line[i] == ' ' || line[i] == '\t');
            lemma_found_behind(line, i + 1, n);
        } else if !(line[i] == '#' && validate::open_quote(line, i) is None) {
            lemma_found_behind(line, i + 1, i + 1);
        }
    }
}

proof fn lemma_first_visible(
    indent: Seq<char>,
    s: Seq<char>,
    a: Seq<char>,
    t: Seq<char>,
    b: Seq<char>,
    k: int,
)
    requires
        text::all_white(indent),
        s.len() > 0,
        !text::is_white(s[0]),
        text::all_white(a),
        t.len() > 0,
        !text::is_white(t[0]),
        indent.len() <= k <= (indent + s).len(),
        (indent + s).take(k) == a + t + b,
    ensures
        t[0] == s[0],
{
    let line = indent + s;
    let shown = line.take(k);
    let n = indent.len() as int;
    let j = a.len() as int;
    assert((a + t + b).len() == k);
    assert(shown[j] == (a + t + b)[j]);
    assert((a + t + b)[j] == t[0]);
    assert(shown[j] == line[j]);
    if j < n {
        assert(shown[j] == indent[j]);
    } else if j > n {
        assert(shown[n] == line[n]);
        assert(line[n] == s[0]);
        assert((a + t + b)[n] == a[n]);
    } else {
        assert(line[n] == s[0]);
    }
}

proof fn lemma_line_begins(
    indent: Seq<char>,
    s: Seq<char>,
    c: Seq<char>,
    u: Seq<char>,
    d: Seq<char>,
)
    requires
        text::all_white(indent),
        s.len() > 0,
        !text::is_white(s[0]),
        text::all_white(c),
        text::all_white(d),
        indent + s == c + u + d,
        u.len() > 0 ==> !text::is_white(u[0]) && !text::is_white(u.last()),
    ensures
        u.len() > 0,
        u[0] == s[0],
        u.len() > 1 ==> s.len() > 1 && u[1] == s[1],
        s.len() > 1 && !text::is_white(s[1]) ==> u.len() > 1,
{
    let line = indent + s;
    let n = indent.len() as int;
    assert(line[n] == s[0]);
    let w = c + u + d;
    if u.len() == 0 {
        assert(w.len() == c.len() + d.len());
        assert(n < line.len());
        assert(w =~= c + d);
        if n < c.len() {
            assert(w[n] == c[n]);
        } else {
            assert(w[n] == d[n - c.len()]);
        }
    }
    assert(line.take(line.len() as int) =~= line);
    lemma_first_visible(indent, s, c, u, d, line.len() as int);
    // The visible text begins where the indentation ends.
    let j = c.len() as int;
    if j < n {
        assert(w[j] == u[0]);
        assert(line[j] == indent[j]);
    }
    if j > n {
        assert(w[n] == c[n]);
    }
    assert(j == n);
    if u.len() > 1 {
        assert(w[n + 1] == u[1]);
        assert(line[n + 1] == s[1]);
    }
    if s.len() > 1 && !text::is_white(s[1]) && u.len() == 1 {
        assert(line[n + 1] == s[1]);
        assert(w[n + 1] == d[0]);
    }
}

// ---------------------------------------------------------------------------
// Attributes

/// A `script` attribute is refused, alone or with whatever arguments.
pub proof fn law_script_attribute_is_refused(args: Seq<char>)
    requires
        forall|i: int|
            0 <= i < args.len() ==> #[trigger] args[i] != '\'' && args[i] != '"' && args[i] != '#'
                && args[i] != '(' && args[i] != ')',
    ensures
        validate::check_line("[script]"@, None).0 == Some(Refusal::Script),
        validate::check_line("[script("@ + args + ")]"@, None).0 == Some(Refusal::Script),
{
    reveal_strlit("[script]");
    reveal_strlit("[script(");
    reveal_strlit(")]");
    reveal_strlit("script");
    assert("[script]"@ =~= seq!['['] + "script"@ + seq![']']);
    assert("script"@.take(6) =~= "script"@);
    lemma_script_line("[script]"@, "script"@);
    let s = "[script("@ + args + ")]"@;
    let list = "script"@ + seq!['('] + args + seq![')'];
    assert(s =~= seq!['['] + list + seq![']']);
    assert(list.take(6) =~= "script"@);
    assert forall|i: int| 7 <= i < list.len() - 1 implies #[trigger] list[i] != '(' && list[i]
        != ')' by {
        assert(list[i] == args[i - 7]);
    }
    assert forall|i: int| 0 <= i < list.len() implies #[trigger] list[i] != '\'' && list[i] != '"'
        && list[i] != '#' by {
        if i < 6 {
            assert(list[i] == "script"@[i]);
        } else if 7 <= i < list.len() - 1 {
            assert(list[i] == args[i - 7]);
        }
    }
    lemma_script_line(s, list);
}

/// A whole list of one attribute that is named `script`.
proof fn lemma_script_line(s: Seq<char>, list: Seq<char>)
    requires
        s == seq!['['] + list + seq![']'],
        list.len() >= 6,
        list.take(6) == "script"@,
        list.len() == 6 || (list[6] == '(' && list.last() == ')' && list.len() >= 8 && forall|i: int|
            7 <= i < list.len() - 1 ==> #[trigger] list[i] != '(' && list[i] != ')'),
        forall|i: int|
            0 <= i < list.len() ==> #[trigger] list[i] != '\'' && list[i] != '"' && list[i] != '#',
    ensures
        validate::check_line(s, None).0 == Some(Refusal::Script),
{
    reveal_strlit("script");
    assert forall|i: int| 0 <= i < 6 implies #[trigger] list[i] == "script"@[i] by {
        assert(list.take(6)[i] == list[i]);
    }
    assert forall|i: int| 0 <= i < s.len() implies #[trigger] s[i] != '#' by {
        if 0 < i < s.len() - 1 {
            assert(s[i] == list[i - 1]);
        }
    }
    lemma_not_found(s, '#', 0);
    assert(s.take(s.len() as int) =~= s);
    assert(s[0] == '[' && s.last() == ']');
    lemma_trims_to_itself(s);
    assert(s.subrange(1, s.len() - 1) =~= list);
    // No comma parts the list.
    assert forall|i: int| 0 <= i < list.len() implies !#[trigger] validate::parts_at(list, i) by {
        if i < 6 {
            assert(list[i] == "script"@[i]);
        } else {
            lemma_depth(list, i);
        }
    }
    lemma_one_attribute(list, 0);
    let all = validate::attributes(list, 0, 0);
    assert(all =~= seq![list]);
    // Its name ends at the bracket.
    assert(list[0] == 's');
    assert(!text::is_white(list.last())) by {
        if list.len() == 6 {
            assert(list[5] == 't');
        }
    }
    lemma_trims_to_itself(list);
    lemma_attribute_name(list, 0, 6);
    let name = list.take(6);
    assert(name[0] == 's' && name.last() == 't');
    lemma_trims_to_itself(name);
    assert(validate::attribute_name(all[0]) == "script"@);
    assert(validate::has_script(list));
}

proof fn lemma_attribute_name(t: Seq<char>, i: int, n: int)
    requires
        0 <= i <= n <= t.len(),
        forall|k: int| i <= k < n ==> !validate::ends_attribute_name(#[trigger] t[k]),
        n < t.len() ==> validate::ends_attribute_name(t[n]),
    ensures
        validate::attribute_name_end(t, i) == n,
    decreases n - i,
{
    if i < n {
        assert(!validate::ends_attribute_name(t[i]));
        lemma_attribute_name(t, i + 1, n);
    }
}

proof fn lemma_depth(list: Seq<char>, i: int)
    requires
        list.len() >= 8,
        6 <= i < list.len(),
        list.take(6) == "script"@,
        list[6] == '(',
        forall|k: int| 7 <= k < list.len() - 1 ==> #[trigger] list[k] != '(' && list[k] != ')',
        forall|k: int| 0 <= k < list.len() ==> #[trigger] list[k] != '\'' && list[k] != '"',
    ensures
        i > 6 ==> validate::depth_at(list, i) == 1,
        i == 6 ==> validate::depth_at(list, i) == 0,
    decreases i,
{
    if i > 6 {
        lemma_depth(list, i - 1);
        lemma_no_quote(list, i - 1);
    } else {
        lemma_flat(list, 6);
    }
}

proof fn lemma_flat(list: Seq<char>, i: int)
    requires
        0 <= i <= 6 <= list.len(),
        list.take(6) == "script"@,
    ensures
        validate::depth_at(list, i) == 0,
    decreases i,
{
    reveal_strlit("script");
    if i > 0 {
        lemma_flat(list, i - 1);
        assert(list.take(6)[i - 1] == list[i - 1]);
    }
}

proof fn lemma_one_attribute(list: Seq<char>, i: int)
    requires
        0 <= i <= list.len(),
        forall|k: int| i <= k < list.len() ==> !#[trigger] validate::parts_at(list, k),
    ensures
        validate::attributes(list, 0, i) == seq![list],
    decreases list.len() - i,
{
    if i < list.len() {
        assert(!validate::parts_at(list, i));
        lemma_one_attribute(list, i + 1);
    } else {
        assert(list.subrange(0, list.len() as int) =~= list);
    }
}

// ---------------------------------------------------------------------------
// Whole files

/// A file is refused for its first line where that is refused, whatever follows it; where
/// it is not, and neither goes on nor opens attributes, the rest of the file decides.
pub proof fn law_first_line_decides(line: Seq<char>, rest: Seq<char>)
    requires
        line.len() > 0,
        line[0] != '\u{feff}',
        rest.len() == 0 || rest[0] != '\u{feff}',
        forall|k: int| 0 <= k < line.len() ==> #[trigger] line[k] != '\n' && line[k] != '\r',
        !validate::goes_on(line),
    ensures
        ({
            let (refusal, block) = validate::check_line(line, None);
            let whole = validate::refusal_of(line + seq!['\n'] + rest);
            &&& refusal is Some ==> whole == refusal
            &&& refusal is None && block is None ==> whole == validate::refusal_of(rest)
        }),
{
    git_laws::law_lines(line, rest);
    let text0 = line + seq!['\n'] + rest;
    assert(text0[0] == line[0]);
    assert(validate::without_mark(text0) == text0);
    assert(validate::without_mark(rest) == rest);
    let all = seq![line] + text::lines(rest);
    assert(text::lines(text0) == all);
    assert(all[0] == line);
    lemma_logical_tail(all, text::lines(rest), 1, 0, seq![]);
    let tail = validate::logical_lines(text::lines(rest), 0, seq![]);
    assert(seq![] + line =~= line);
    let logical = validate::logical_lines(all, 0, seq![]);
    assert(logical =~= seq![line] + tail);
    assert(logical[0] == line);
    assert(logical.skip(1) =~= tail);
}

proof fn lemma_logical_tail(
    all: Seq<Seq<char>>,
    rest: Seq<Seq<char>>,
    i: int,
    j: int,
    begun: Seq<char>,
)
    requires
        0 <= j <= rest.len(),
        i == j + 1,
        all.len() == rest.len() + 1,
        forall|k: int| 0 <= k < rest.len() ==> #[trigger] rest[k] == all[k + 1],
    ensures
        validate::logical_lines(all, i, begun) == validate::logical_lines(rest, j, begun),
    decreases rest.len() - j,
{
    if j < rest.len() {
        assert(rest[j] == all[j + 1]);
        lemma_logical_tail(all, rest, i + 1, j + 1, begun + validate::joined_part(rest[j]));
        lemma_logical_tail(all, rest, i + 1, j + 1, seq![]);
    }
}

/// A justfile that imports a quoted path on any line is refused for it, unless an earlier
/// line decides otherwise: here, on its first line, and behind a line that is accepted.
pub proof fn law_imports_refuse_the_file(
    kw: Seq<char>,
    between: Seq<char>,
    path: Seq<char>,
    before: Seq<char>,
    rest: Seq<char>,
)
    requires
        kw == "import"@ || kw == "mod"@,
        is_between(between),
        forall|i: int|
            0 <= i < path.len() ==> #[trigger] path[i] != '\'' && path[i] != '\n' && path[i] != '\r',
        forall|i: int| 0 <= i < between.len() ==> #[trigger] between[i] != '\n' && between[i] != '\r',
        before.len() > 0,
        before[0] != '\u{feff}',
        forall|k: int| 0 <= k < before.len() ==> #[trigger] before[k] != '\n' && before[k] != '\r',
        !validate::goes_on(before),
        validate::check_line(before, None) == (None::<Refusal>, None::<Seq<char>>),
        rest.len() == 0 || rest[0] != '\u{feff}',
    ensures
        ({
            let line = quoted(kw + between, path);
            let file = line + seq!['\n'] + rest;
            &&& validate::refusal_of(file) == Some(Refusal::Source)
            &&& validate::refusal_of(before + seq!['\n'] + file) == Some(Refusal::Source)
        }),
{
    reveal_strlit("import");
    reveal_strlit("mod");
    let line = quoted(kw + between, path);
    let file = line + seq!['\n'] + rest;
    law_quoted_source_is_refused(kw, between, path);
    assert(line[0] == kw[0]);
    assert forall|k: int| 0 <= k < line.len() implies #[trigger] line[k] != '\n' && line[k]
        != '\r' by {
        let n = kw.len() as int;
        let m = n + between.len();
        if k < n {
            assert(line[k] == kw[k]);
        } else if k < m {
            assert(line[k] == between[k - n]);
        } else if m < k < line.len() - 1 {
            assert(line[k] == path[k - m - 1]);
        }
    }
    law_first_line_decides(line, rest);
    assert(file[0] == line[0]);
    law_first_line_decides(before, file);
}

/// What the user is told of a refusal begins with the name of the file, and different
/// reasons are told differently.
pub proof fn law_refusals_are_told(a: Refusal, b: Refusal, rel: Seq<char>)
    ensures
        text::starts_with(validate::refusal_text(a, rel), "refusing "@ + rel),
        validate::refusal_text(a, rel) == validate::refusal_text(b, rel) ==> a == b,
        a == Refusal::Source ==> passages::holds(
            validate::refusal_text(a, rel),
            ": an `import`/`mod` source "@,
        ),
        a == Refusal::Shebang ==> passages::holds(
            validate::refusal_text(a, rel),
            ": a shebang recipe "@,
        ),
        a == Refusal::Script ==> passages::holds(
            validate::refusal_text(a, rel),
            ": a `script` recipe attribute "@,
        ),
        a == Refusal::Setting ==> passages::holds(
            validate::refusal_text(a, rel),
            ": a `set fallback`"@,
        ),
{
    reveal_strlit(
        ": a `script` recipe attribute makes the `just check` fallback non-immutable (F-027)",
    );
    reveal_strlit(": a shebang recipe runs via a PATH-resolved interpreter (F-027)");
    reveal_strlit(
        ": a `set fallback`/`set dotenv-*`/`set shell`/`set script-interpreter` setting makes the `just check` fallback non-immutable (F-012)",
    );
    reveal_strlit(
        ": an `import`/`mod` source makes the `just check` fallback non-immutable (F-012)",
    );
    reveal_strlit(": an `import`/`mod` source ");
    reveal_strlit(": a shebang recipe ");
    reveal_strlit(": a `script` recipe attribute ");
    reveal_strlit(": a `set fallback`");
    let head = "refusing "@ + rel;
    let x = validate::refusal_text(a, rel);
    let y = validate::refusal_text(b, rel);
    assert(x.take(head.len() as int) =~= head);
    assert(x.len() == y.len() ==> x.skip(head.len() as int).len() == y.skip(
        head.len() as int,
    ).len());
    let why = x.skip(head.len() as int);
    let said = match a {
        Refusal::Source => ": an `import`/`mod` source "@,
        Refusal::Shebang => ": a shebang recipe "@,
        Refusal::Script => ": a `script` recipe attribute "@,
        Refusal::Setting => ": a `set fallback`"@,
    };
    assert(why.take(said.len() as int) =~= said);
    assert(x =~= head + said + why.skip(said.len() as int));
    passages::lemma_holds(head, said, why.skip(said.len() as int));
}

} // verus!
