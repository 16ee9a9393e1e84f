//! Which justfiles the `just check` fallback runs.
//!
//! The fallback runs the bytes of one file. A justfile that reads other files
//! or that picks an interpreter of its own would run something else, so it is
//! refused.

use crate::text;
use vstd::prelude::*;

verus! {

/// Why a justfile is refused.
#[derive(Debug, Clone, Copy, PartialEq, Eq, Structural)]
pub enum Refusal {
    /// A `script` recipe attribute.
    Script,
    /// A recipe body that begins with a shebang.
    Shebang,
    /// A setting that loads files or that picks an interpreter.
    Setting,
    /// An `import` or a `mod`.
    Source,
}

// ---------------------------------------------------------------------------
// Quotes and comments

/// The number of backslashes directly before `i`.
pub open spec fn backslashes_before(s: Seq<char>, i: int) -> int
    decreases i,
{
    if 0 < i <= s.len() && s[i - 1] == '\\' {
        1 + backslashes_before(s, i - 1)
    } else {
        0
    }
}

/// Does the character at `i` close a quote that `q` opened? Single-quoted strings
/// are raw; in double-quoted ones an odd number of backslashes escapes the quote.
pub open spec fn closes_quote(s: Seq<char>, i: int, q: char) -> bool {
    s[i] == q && (q == '\'' || backslashes_before(s, i) % 2 == 0)
}

/// The quote that is open at `i`.
pub open spec fn open_quote(s: Seq<char>, i: int) -> Option<char>
    decreases i,
{
    if i <= 0 {
        None
    } else {
        match open_quote(s, i - 1) {
            Some(q) => if closes_quote(s, i - 1, q) {
                None
            } else {
                Some(q)
            },
            None => if s[i - 1] == '\'' || s[i - 1] == '"' {
                Some(s[i - 1])
            } else {
                None
            },
        }
    }
}

/// The first place from `i` on that holds `c` outside quotes, or else the end.
pub open spec fn find_bare(s: Seq<char>, c: char, i: int) -> int
    decreases s.len() - i,
{
    if 0 <= i < s.len() && !(s[i] == c && open_quote(s, i) is None) {
        find_bare(s, c, i + 1)
    } else if i < s.len() {
        i
    } else {
        s.len() as int
    }
}

/// The line without its comment: what stands before the first `#` outside quotes.
pub open spec fn without_comment(line: Seq<char>) -> Seq<char> {
    line.take(find_bare(line, '#', 0))
}

// ---------------------------------------------------------------------------
// Directives

/// Is the line the head of a recipe? Its colon does not begin a `:=`.
pub open spec fn is_recipe_head(line: Seq<char>) -> bool {
    let colon = find_bare(line, ':', 0);
    ||| colon < line.len() && !text::starts_with(line.skip(colon), ":="@)
    ||| text::ends_with(text::trimmed_end(line), ":"@)
}

/// Does `c` end the name of a setting?
pub open spec fn ends_setting_name(c: char) -> bool {
    c == ' ' || c == '\t' || c == '=' || c == ':'
}

/// The place behind the name of a setting that begins at `i`.
pub open spec fn setting_name_end(s: Seq<char>, i: int) -> int
    decreases s.len() - i,
{
    if 0 <= i < s.len() && !ends_setting_name(s[i]) {
        setting_name_end(s, i + 1)
    } else {
        i
    }
}

/// `s` without the equals signs and colons at its start.
pub open spec fn without_assign(s: Seq<char>) -> Seq<char>
    decreases s.len(),
{
    if s.len() > 0 && (s[0] == '=' || s[0] == ':') {
        without_assign(s.skip(1))
    } else {
        s
    }
}

/// Does the setting `name` always load a file or pick an interpreter?
pub open spec fn always_refused(name: Seq<char>) -> bool {
    ||| name == "dotenv-path"@
    ||| name == "dotenv-filename"@
    ||| name == "dotenv-command"@
    ||| name == "shell"@
    ||| name == "script-interpreter"@
}

/// Does the setting `name` load a file or pick an interpreter unless it is `false`?
pub open spec fn refused_unless_false(name: Seq<char>) -> bool {
    ||| name == "fallback"@
    ||| name == "dotenv"@
    ||| name == "dotenv-load"@
    ||| name == "dotenv-required"@
    ||| name == "dotenv-override"@
    ||| name == "default-script"@
}

/// Is the line a `set` that is refused?
pub open spec fn is_refused_setting(line: Seq<char>) -> bool {
    if is_recipe_head(line) {
        false
    } else if !(text::starts_with(line, "set"@) && line.len() > 3 && (line[3] == ' ' || line[3]
        == '\t')) {
        false
    } else {
        let rest = text::trimmed_start(line.skip(3));
        let end = setting_name_end(rest, 0);
        let name = rest.take(end);
        let value = text::trimmed(without_assign(text::trimmed(rest.skip(end))));
        always_refused(name) || (refused_unless_false(name) && value != "false"@)
    }
}

/// Is the line a source directive of the keyword `kw`, not a recipe and not an
/// assignment?
pub open spec fn is_source(line: Seq<char>, kw: Seq<char>) -> bool {
    if is_recipe_head(line) || !text::starts_with(line, kw) {
        false
    } else {
        let rest = line.skip(kw.len() as int);
        if rest.len() == 0 {
            true
        } else if rest[0] == ' ' || rest[0] == '\t' || rest[0] == '?' {
            let bare = text::trimmed_start(rest);
            let path = if bare.len() > 0 && bare[0] == '?' {
                text::trimmed_start(bare.skip(1))
            } else {
                bare
            };
            !text::starts_with(path, "="@) && !text::starts_with(path, ":="@)
        } else {
            false
        }
    }
}

/// What a line outside an open attribute block is refused for.
pub open spec fn directive_refusal(line: Seq<char>) -> Option<Refusal> {
    let shown = without_comment(line);
    let t = text::trimmed(shown);
    if shown.len() > 0 && (shown[0] == ' ' || shown[0] == '\t') {
        // An indented line belongs to a recipe's body.
        if text::starts_with(text::trimmed(line), "#!"@) {
            Some(Refusal::Shebang)
        } else {
            None
        }
    } else if t.len() == 0 {
        None
    } else if is_script_list(t) {
        Some(Refusal::Script)
    } else if is_refused_setting(t) {
        Some(Refusal::Setting)
    } else if is_source(t, "import"@) || is_source(t, "mod"@) {
        Some(Refusal::Source)
    } else {
        None
    }
}

// ---------------------------------------------------------------------------
// Attributes

/// How many brackets are open at `i`, outside quotes.
pub open spec fn depth_at(s: Seq<char>, i: int) -> int
    decreases i,
{
    if i <= 0 {
        0
    } else {
        let before = depth_at(s, i - 1);
        if open_quote(s, i - 1) is Some {
            before
        } else if s[i - 1] == '(' {
            before + 1
        } else if s[i - 1] == ')' {
            before - 1
        } else {
            before
        }
    }
}

/// Does a comma at `i` part two attributes?
pub open spec fn parts_at(s: Seq<char>, i: int) -> bool {
    s[i] == ',' && open_quote(s, i) is None && depth_at(s, i) == 0
}

/// The attributes of a list, from the one that begins at `from` on; there is no
/// comma that parts before `i`.
pub open spec fn attributes(s: Seq<char>, from: int, i: int) -> Seq<Seq<char>>
    decreases s.len() - i,
{
    if 0 <= i < s.len() {
        if parts_at(s, i) {
            seq![s.subrange(from, i)] + attributes(s, i + 1, i + 1)
        } else {
            attributes(s, from, i + 1)
        }
    } else {
        seq![s.subrange(from, s.len() as int)]
    }
}

/// Does `c` end the name of an attribute?
pub open spec fn ends_attribute_name(c: char) -> bool {
    c == '(' || c == ':' || c == ' '
}

/// The place behind the name of an attribute that begins at `i`.
pub open spec fn attribute_name_end(s: Seq<char>, i: int) -> int
    decreases s.len() - i,
{
    if 0 <= i < s.len() && !ends_attribute_name(s[i]) {
        attribute_name_end(s, i + 1)
    } else {
        i
    }
}

/// The name of an attribute.
pub open spec fn attribute_name(attribute: Seq<char>) -> Seq<char> {
    let t = text::trimmed(attribute);
    text::trimmed(t.take(attribute_name_end(t, 0)))
}

/// Is one of the attributes of the list named `script`?
pub open spec fn has_script(list: Seq<char>) -> bool {
    exists|k: int|
        0 <= k < attributes(list, 0, 0).len() && attribute_name(
            #[trigger] attributes(list, 0, 0)[k],
        ) == "script"@
}

/// Is `t` a whole list of attributes, one of which is named `script`?
pub open spec fn is_script_list(t: Seq<char>) -> bool {
    t.len() >= 2 && t[0] == '[' && t.last() == ']' && has_script(t.subrange(1, t.len() - 1))
}

/// What a logical line is refused for, with the attribute block that is open
/// before it, and the attribute block that is open behind it.
pub open spec fn check_line(line: Seq<char>, block: Option<Seq<char>>) -> (
    Option<Refusal>,
    Option<Seq<char>>,
) {
    let t = text::trimmed(without_comment(line));
    match block {
        Some(b) => {
            let joined = b + seq![' '] + t;
            if t.contains(']') {
                let whole = text::trimmed(joined);
                if is_script_list(whole) {
                    (Some(Refusal::Script), None)
                } else {
                    (None, None)
                }
            } else {
                (None, Some(joined))
            }
        },
        None => if t.len() > 0 && t[0] == '[' {
            if t.last() == ']' {
                if has_script(t.subrange(1, t.len() - 1)) {
                    (Some(Refusal::Script), None)
                } else {
                    (None, None)
                }
            } else {
                (None, Some(t))
            }
        } else {
            (directive_refusal(line), None)
        },
    }
}

// ---------------------------------------------------------------------------
// Lines

/// Does the physical line go on on the next one? It ends in one backslash
/// outside a comment.
pub open spec fn goes_on(line: Seq<char>) -> bool {
    let t = text::trimmed_end(without_comment(line));
    t.len() > 0 && t.last() == '\\' && !(t.len() > 1 && t[t.len() - 2] == '\\')
}

/// What a line that goes on contributes to its logical line.
pub open spec fn joined_part(line: Seq<char>) -> Seq<char> {
    text::trimmed_end(without_comment(line)).drop_last().push(' ')
}

/// The logical lines of the physical lines from the `i`-th on, where `begun` has
/// been read of the first.
pub open spec fn logical_lines(lines: Seq<Seq<char>>, i: int, begun: Seq<char>) -> Seq<Seq<char>>
    decreases lines.len() - i,
{
    if 0 <= i < lines.len() {
        if goes_on(lines[i]) {
            logical_lines(lines, i + 1, begun + joined_part(lines[i]))
        } else {
            seq![begun + lines[i]] + logical_lines(lines, i + 1, seq![])
        }
    } else if begun.len() > 0 {
        seq![begun]
    } else {
        seq![]
    }
}

/// The first refusal among the logical lines, with the attribute block that is
/// open before them.
pub open spec fn first_refusal(lines: Seq<Seq<char>>, block: Option<Seq<char>>) -> Option<Refusal>
    decreases lines.len(),
{
    if lines.len() == 0 {
        None
    } else {
        let (refusal, next) = check_line(lines[0], block);
        if refusal is Some {
            refusal
        } else {
            first_refusal(lines.skip(1), next)
        }
    }
}

/// `s` without a byte order mark at its start.
pub open spec fn without_mark(s: Seq<char>) -> Seq<char> {
    if s.len() > 0 && s[0] == '\u{feff}' {
        s.skip(1)
    } else {
        s
    }
}

/// What the justfile with the text `s` is refused for.
pub open spec fn refusal_of(s: Seq<char>) -> Option<Refusal> {
    first_refusal(logical_lines(text::lines(without_mark(s)), 0, seq![]), None)
}

/// What the user is told of a refusal of the file `rel`.
pub open spec fn refusal_text(refusal: Refusal, rel: Seq<char>) -> Seq<char> {
    "refusing "@ + rel + match refusal {
        Refusal::Script => ": a `script` recipe attribute makes the `just check` fallback non-immutable (F-027)"@,
        Refusal::Shebang => ": a shebang recipe runs via a PATH-resolved interpreter (F-027)"@,
        Refusal::Setting => ": a `set fallback`/`set dotenv-*`/`set shell`/`set script-interpreter` setting makes the `just check` fallback non-immutable (F-012)"@,
        Refusal::Source => ": an `import`/`mod` source makes the `just check` fallback non-immutable (F-012)"@,
    }
}

// ---------------------------------------------------------------------------
// The scanner

/// Is the character at `i` escaped: does an odd number of backslashes stand
/// directly before it?
fn is_escape_at(s: &[char], i: usize) -> (r: bool)
    requires
        i <= s@.len(),
    ensures
        r == (backslashes_before(s@, i as int) % 2 == 1),
{
    let mut j: usize = i;
    let mut odd = false;
    while j > 0 && s[j - 1] == '\\'
        invariant
            j <= i <= s@.len(),
            backslashes_before(s@, i as int) == i - j + backslashes_before(s@, j as int),
            odd == ((i - j) % 2 == 1),
        decreases j,
    {
        odd = !odd;
        j = j - 1;
    }
    odd
}

/// The quote that is open behind `i`, where `quote` is open at `i`.
fn quote_behind(s: &[char], i: usize, quote: Option<char>) -> (r: Option<char>)
    requires
        i < s@.len(),
        quote == open_quote(s@, i as int),
    ensures
        r == open_quote(s@, i + 1),
{
    let c = s[i];
    match quote {
        Some(q) => if c == q && (q == '\'' || !is_escape_at(s, i)) {
            None
        } else {
            Some(q)
        },
        None => if c == '\'' || c == '"' {
            Some(c)
        } else {
            None
        },
    }
}

/// The first place that holds `c` outside quotes, or else the end.
fn find_unquoted(s: &[char], c: char) -> (r: usize)
    ensures
        r == find_bare(s@, c, 0),
        r <= s@.len(),
{
    let mut i: usize = 0;
    let mut quote: Option<char> = None;
    while i < s.len()
        invariant
            i <= s@.len(),
            quote == open_quote(s@, i as int),
            find_bare(s@, c, i as int) == find_bare(s@, c, 0),
        decreases s@.len() - i,
    {
        if s[i] == c && quote.is_none() {
            return i;
        }
        quote = quote_behind(s, i, quote);
        i = i + 1;
    }
    i
}

/// The line without its comment.
fn strip_comment(line: &[char]) -> (r: &[char])
    ensures
        r@ == without_comment(line@),
{
    let n = find_unquoted(line, '#');
    assert(line@.subrange(0, n as int) =~= line@.take(n as int));
    text::part(line, 0, n)
}

/// Is the line the head of a recipe?
fn heads_recipe(line: &[char]) -> (r: bool)
    ensures
        r == is_recipe_head(line@),
{
    let colon = find_unquoted(line, ':');
    assert(line@.subrange(colon as int, line@.len() as int) =~= line@.skip(colon as int));
    if colon < line.len() && !text::has_prefix(text::part(line, colon, line.len()), ":=") {
        return true;
    }
    text::has_suffix(text::trim_end(line), ":")
}

/// `s` from its `n`-th character on.
fn behind(s: &[char], n: usize) -> (r: &[char])
    requires
        n <= s@.len(),
    ensures
        r@ == s@.skip(n as int),
{
    assert(s@.subrange(n as int, s@.len() as int) =~= s@.skip(n as int));
    text::part(s, n, s.len())
}

/// `s` without the equals signs and colons at its start.
fn strip_assign(s: &[char]) -> (r: &[char])
    ensures
        r@ == without_assign(s@),
{
    let mut i: usize = 0;
    assert(s@.skip(0) =~= s@);
    while i < s.len() && (s[i] == '=' || s[i] == ':')
        invariant
            i <= s@.len(),
            without_assign(s@.skip(i as int)) == without_assign(s@),
        decreases s@.len() - i,
    {
        assert(s@.skip(i as int)[0] == s@[i as int]);
        assert(s@.skip(i as int).skip(1) =~= s@.skip(i + 1));
        i = i + 1;
    }
    behind(s, i)
}

/// Is the line a `set` that is refused?
fn is_refused_set_directive(line: &[char]) -> (r: bool)
    ensures
        r == is_refused_setting(line@),
{
    if heads_recipe(line) {
        return false;
    }
    proof {
        reveal_strlit("set");
        assert("set"@.len() == 3);
    }
    if !text::has_prefix(line, "set") {
        return false;
    }
    if line.len() <= 3 || !(line[3] == ' ' || line[3] == '\t') {
        return false;
    }
    let rest = text::trim_start(behind(line, 3));
    let mut end: usize = 0;
    while end < rest.len() && !(rest[end] == ' ' || rest[end] == '\t' || rest[end] == '='
        || rest[end] == ':')
        invariant
            end <= rest@.len(),
            setting_name_end(rest@, end as int) == setting_name_end(rest@, 0),
        decreases rest@.len() - end,
    {
        end = end + 1;
    }
    let name = text::part(rest, 0, end);
    assert(name@ =~= rest@.take(end as int));
    if text::is_text(name, "dotenv-path") || text::is_text(name, "dotenv-filename")
        || text::is_text(name, "dotenv-command") || text::is_text(name, "shell") || text::is_text(
        name,
        "script-interpreter",
    ) {
        return true;
    }
    if text::is_text(name, "fallback") || text::is_text(name, "dotenv") || text::is_text(
        name,
        "dotenv-load",
    ) || text::is_text(name, "dotenv-required") || text::is_text(name, "dotenv-override")
        || text::is_text(name, "default-script") {
        let value = text::trim(strip_assign(text::trim(behind(rest, end))));
        return !text::is_text(value, "false");
    }
    false
}

/// Is the line a source directive of the keyword `kw`?
fn is_source_directive(line: &[char], kw: &str) -> (r: bool)
    ensures
        r == is_source(line@, kw@),
{
    if heads_recipe(line) || !text::has_prefix(line, kw) {
        return false;
    }
    let rest = behind(line, kw.unicode_len());
    if rest.len() == 0 {
        return true;
    }
    if !(rest[0] == ' ' || rest[0] == '\t' || rest[0] == '?') {
        return false;
    }
    let bare = text::trim_start(rest);
    let path = if bare.len() > 0 && bare[0] == '?' {
        text::trim_start(behind(bare, 1))
    } else {
        bare
    };
    !text::has_prefix(path, "=") && !text::has_prefix(path, ":=")
}

/// Is `t` a whole list of attributes, one of which is named `script`?
fn lists_script(t: &[char]) -> (r: bool)
    ensures
        r == is_script_list(t@),
{
    t.len() >= 2 && t[0] == '[' && t[t.len() - 1] == ']' && attr_block_has_script(
        text::part(t, 1, t.len() - 1),
    )
}

/// What a line outside an open attribute block is refused for.
fn reject_refused_directive(line: &[char]) -> (r: Option<Refusal>)
    ensures
        r == directive_refusal(line@),
{
    let shown = strip_comment(line);
    if shown.len() > 0 && (shown[0] == ' ' || shown[0] == '\t') {
        if text::has_prefix(text::trim(line), "#!") {
            return Some(Refusal::Shebang);
        }
        return None;
    }
    let t = text::trim(shown);
    if t.len() == 0 {
        return None;
    }
    if lists_script(t) {
        return Some(Refusal::Script);
    }
    if is_refused_set_directive(t) {
        return Some(Refusal::Setting);
    }
    if is_source_directive(t, "import") || is_source_directive(t, "mod") {
        return Some(Refusal::Source);
    }
    None
}

/// The attributes of a list.
fn split_top_level_commas(s: &[char]) -> (r: Vec<Vec<char>>)
    ensures
        text::pieces(r@) == attributes(s@, 0, 0),
{
    let mut out: Vec<Vec<char>> = Vec::new();
    let mut depth: i128 = 0;
    let mut quote: Option<char> = None;
    let mut from: usize = 0;
    let mut i: usize = 0;
    assert(text::pieces(out@) + attributes(s@, 0, 0) =~= attributes(s@, 0, 0));
    while i < s.len()
        invariant
            from <= i <= s@.len(),
            quote == open_quote(s@, i as int),
            depth == depth_at(s@, i as int),
            -(i as int) <= depth <= i,
            text::pieces(out@) + attributes(s@, from as int, i as int) == attributes(s@, 0, 0),
        decreases s@.len() - i,
    {
        let c = s[i];
        let mut next_depth: i128 = depth;
        if quote.is_none() {
            if c == '(' {
                next_depth = depth + 1;
            } else if c == ')' {
                next_depth = depth - 1;
            } else if c == ',' && depth == 0 {
                let ghost before = text::pieces(out@);
                let item = text::copy(text::part(s, from, i));
                let ghost shown = item@;
                out.push(item);
                proof {
                    assert(text::pieces(out@) =~= before.push(shown));
                    assert(attributes(s@, from as int, i as int) == seq![shown] + attributes(
                        s@,
                        i + 1,
                        i + 1,
                    ));
                    assert(text::pieces(out@) + attributes(s@, i + 1, i + 1) =~= before
                        + attributes(s@, from as int, i as int));
                }
                from = i + 1;
            }
        }
        quote = quote_behind(s, i, quote);
        depth = next_depth;
        i = i + 1;
    }
    let ghost before = text::pieces(out@);
    let item = text::copy(text::part(s, from, s.len()));
    let ghost shown = item@;
    out.push(item);
    assert(text::pieces(out@) =~= before.push(shown));
    assert(text::pieces(out@) =~= before + attributes(s@, from as int, i as int));
    out
}

/// Is one of the attributes of the list named `script`?
fn attr_block_has_script(list: &[char]) -> (r: bool)
    ensures
        r == has_script(list@),
{
    let parts = split_top_level_commas(list);
    let ghost all = attributes(list@, 0, 0);
    let mut k: usize = 0;
    while k < parts.len()
        invariant
            k <= parts.len(),
            text::pieces(parts@) == all,
            all == attributes(list@, 0, 0),
            forall|j: int| 0 <= j < k ==> attribute_name(#[trigger] all[j]) != "script"@,
        decreases parts.len() - k,
    {
        assert(all[k as int] == parts@[k as int]@);
        let t = text::trim(parts[k].as_slice());
        let mut end: usize = 0;
        while end < t.len() && !(t[end] == '(' || t[end] == ':' || t[end] == ' ')
            invariant
                end <= t@.len(),
                attribute_name_end(t@, end as int) == attribute_name_end(t@, 0),
            decreases t@.len() - end,
        {
            end = end + 1;
        }
        let name = text::trim(text::part(t, 0, end));
        assert(t@.subrange(0, end as int) =~= t@.take(end as int));
        if text::is_text(name, "script") {
            assert(attribute_name(all[k as int]) == "script"@);
            return true;
        }
        k = k + 1;
    }
    false
}

/// What a logical line is refused for. The open attribute block is kept from line
/// to line.
fn check_just_line(line: &[char], block: &mut Option<Vec<char>>) -> (r: Option<Refusal>)
    ensures
        ({
            let before = match *old(block) {
                Some(b) => Some(b@),
                None => None,
            };
            let (refusal, after) = check_line(line@, before);
            &&& r == refusal
            &&& match *final(block) {
                Some(b) => after == Some(b@),
                None => after is None,
            }
        }),
{
    let t = text::trim(strip_comment(line));
    match block.take() {
        Some(open) => {
            let mut joined = open;
            joined.push(' ');
            let mut k: usize = 0;
            let ghost start = joined@;
            while k < t.len()
                invariant
                    k <= t@.len(),
                    joined@ == start + t@.take(k as int),
                decreases t@.len() - k,
            {
                joined.push(t[k]);
                k = k + 1;
                assert(t@.take(k as int) =~= t@.take(k - 1).push(t@[k - 1]));
            }
            assert(t@.take(k as int) =~= t@);
            assert(joined@ =~= open@ + seq![' '] + t@);
            let p = text::find_char(t, ']', 0);
            if p < t.len() {
                assert(t@.contains(']'));
                let whole = text::trim(joined.as_slice());
                if lists_script(whole) {
                    return Some(Refusal::Script);
                }
                None
            } else {
                assert(!t@.contains(']'));
                *block = Some(joined);
                None
            }
        },
        None => {
            if t.len() > 0 && t[0] == '[' {
                if t[t.len() - 1] == ']' {
                    assert(t@.len() >= 2);
                    if attr_block_has_script(text::part(t, 1, t.len() - 1)) {
                        return Some(Refusal::Script);
                    }
                    return None;
                }
                *block = Some(text::copy(t));
                return None;
            }
            reject_refused_directive(line)
        },
    }
}

/// The view of an open attribute block.
spec fn block_view(block: Option<Vec<char>>) -> Option<Seq<char>> {
    match block {
        Some(b) => Some(b@),
        None => None,
    }
}

/// What the justfile with the text `content` is refused for.
pub fn justfile_refusal(content: &str) -> (r: Option<Refusal>)
    ensures
        r == refusal_of(content@),
{
    let all = text::chars_of(content);
    let body = if all.len() > 0 && all[0] == '\u{feff}' {
        behind(all.as_slice(), 1)
    } else {
        all.as_slice()
    };
    let lines = text::split_lines(body);
    let ghost phys = text::lines(without_mark(content@));
    assert(text::pieces(lines@) == phys);
    let mut begun: Vec<char> = Vec::new();
    let mut block: Option<Vec<char>> = None;
    let mut i: usize = 0;
    while i < lines.len()
        invariant
            i <= lines.len(),
            text::pieces(lines@) == phys,
            phys == text::lines(without_mark(content@)),
            first_refusal(logical_lines(phys, i as int, begun@), block_view(block)) == refusal_of(
                content@,
            ),
        decreases lines.len() - i,
    {
        let line = lines[i].as_slice();
        assert(phys[i as int] == line@);
        let t = text::trim_end(strip_comment(line));
        let n = t.len();
        let ghost was = begun@;
        if n > 0 && t[n - 1] == '\\' && !(n > 1 && t[n - 2] == '\\') {
            let head = text::part(t, 0, n - 1);
            append(&mut begun, head);
            begun.push(' ');
            assert(head@ =~= t@.drop_last());
            assert(begun@ =~= was + joined_part(line@));
        } else {
            append(&mut begun, line);
            let ghost l = begun@;
            let ghost rest = logical_lines(phys, i + 1, seq![]);
            assert(logical_lines(phys, i as int, was) == seq![l] + rest);
            assert((seq![l] + rest).skip(1) =~= rest);
            assert((seq![l] + rest)[0] == l);
            let refusal = check_just_line(begun.as_slice(), &mut block);
            if refusal.is_some() {
                return refusal;
            }
            begun = Vec::new();
            assert(begun@ =~= seq![]);
        }
        i = i + 1;
    }
    if begun.len() > 0 {
        let ghost rest = logical_lines(phys, i as int, begun@);
        assert(rest == seq![begun@]);
        assert(rest.skip(1) =~= seq![]);
        let refusal = check_just_line(begun.as_slice(), &mut block);
        assert(first_refusal(rest.skip(1), block_view(block)) is None);
        return refusal;
    }
    None
}

/// Appends `tail` to `v`.
fn append(v: &mut Vec<char>, tail: &[char])
    ensures
        final(v)@ == old(v)@ + tail@,
{
    let ghost start = v@;
    let mut k: usize = 0;
    assert(start + tail@.take(0) =~= start);
    while k < tail.len()
        invariant
            k <= tail@.len(),
            v@ == start + tail@.take(k as int),
        decreases tail@.len() - k,
    {
        v.push(tail[k]);
        k = k + 1;
        assert(tail@.take(k as int) =~= tail@.take(k - 1).push(tail@[k - 1]));
    }
    assert(tail@.take(k as int) =~= tail@);
}

impl Refusal {
    /// What the user is told of a refusal of the file `rel`.
    pub fn message(self, rel: &str) -> (r: String)
        ensures
            r@ == refusal_text(self, rel@),
    {
        let mut out = "refusing ".to_owned();
        out.append(rel);
        out.append(
            match self {
                Refusal::Script => ": a `script` recipe attribute makes the `just check` fallback non-immutable (F-027)",
                Refusal::Shebang => ": a shebang recipe runs via a PATH-resolved interpreter (F-027)",
                Refusal::Setting => ": a `set fallback`/`set dotenv-*`/`set shell`/`set script-interpreter` setting makes the `just check` fallback non-immutable (F-012)",
                Refusal::Source => ": an `import`/`mod` source makes the `just check` fallback non-immutable (F-012)",
            },
        );
        out
    }
}

/// Checks the text of the justfile `rel`.
pub fn validate_justfile_text(content: &str, rel: &str) -> (r: Result<(), String>)
    ensures
        match r {
            Ok(_) => refusal_of(content@) is None,
            Err(e) => refusal_of(content@) matches Some(refusal) && e@ == refusal_text(
                refusal,
                rel@,
            ),
        },
{
    match justfile_refusal(content) {
        Some(refusal) => Err(refusal.message(rel)),
        None => Ok(()),
    }
}

/// Checks the bytes of the justfile `rel`. UTF-8 is read as it is; bytes that are no
/// UTF-8 count as replacement characters.
pub fn validate_justfile_closure(content: &[u8], rel: &str) -> (r: Result<(), String>)
    ensures
        match r {
            Ok(_) => refusal_of(text::utf8_lossy(content@)) is None,
            Err(e) => refusal_of(text::utf8_lossy(content@)) matches Some(refusal) && e@
                == refusal_text(refusal, rel@),
        },
        vstd::utf8::valid_utf8(content@) ==> text::utf8_lossy(content@) == vstd::utf8::decode_utf8(
            content@,
        ),
{
    let shown = text::from_utf8_lossy(content);
    validate_justfile_text(shown.as_str(), rel)
}

// ---------------------------------------------------------------------------
// Laws

/// The attribute block that is open before the `k`-th of the logical lines.
pub open spec fn block_before(lines: Seq<Seq<char>>, block: Option<Seq<char>>, k: int) -> Option<
    Seq<char>,
>
    decreases k,
{
    if k <= 0 {
        block
    } else {
        check_line(lines[k - 1], block_before(lines, block, k - 1)).1
    }
}

proof fn lemma_block_before(lines: Seq<Seq<char>>, block: Option<Seq<char>>, k: int)
    requires
        1 <= k <= lines.len(),
    ensures
        block_before(lines, block, k) == block_before(
            lines.skip(1),
            check_line(lines[0], block).1,
            k - 1,
        ),
    decreases k,
{
    if k > 1 {
        lemma_block_before(lines, block, k - 1);
        assert(lines.skip(1)[k - 2] == lines[k - 1]);
    } else {
        assert(block_before(lines, block, 0) == block);
    }
}

/// A list of logical lines is accepted exactly when none of them is refused where
/// it stands.
pub proof fn law_accepted_lines(lines: Seq<Seq<char>>, block: Option<Seq<char>>)
    ensures
        first_refusal(lines, block) is None <==> forall|k: int|
            0 <= k < lines.len() ==> check_line(
                #[trigger] lines[k],
                block_before(lines, block, k),
            ).0 is None,
    decreases lines.len(),
{
    if lines.len() > 0 {
        let next = check_line(lines[0], block).1;
        let tail = lines.skip(1);
        law_accepted_lines(tail, next);
        assert(block_before(lines, block, 0) == block);
        assert forall|k: int| 1 <= k < lines.len() implies block_before(lines, block, k)
            == block_before(tail, next, k - 1) && #[trigger] lines[k] == tail[k - 1] by {
            lemma_block_before(lines, block, k);
        }
        if first_refusal(lines, block) is None {
            assert forall|k: int| 0 <= k < lines.len() implies check_line(
                #[trigger] lines[k],
                block_before(lines, block, k),
            ).0 is None by {
                if k > 0 {
                    assert(lines[k] == tail[k - 1]);
                }
            }
        }
        if forall|k: int|
            0 <= k < lines.len() ==> check_line(
                #[trigger] lines[k],
                block_before(lines, block, k),
            ).0 is None {
            assert(check_line(lines[0], block_before(lines, block, 0)).0 is None);
            assert forall|k: int| 0 <= k < tail.len() implies check_line(
                #[trigger] tail[k],
                block_before(tail, next, k),
            ).0 is None by {
                assert(tail[k] == lines[k + 1]);
                assert(check_line(lines[k + 1], block_before(lines, block, k + 1)).0 is None);
            }
        }
    }
}

/// A line that is a list of attributes with `script` among them is refused, by the scan of
/// lines and, where it is not indented, by the check for directives alike.
pub proof fn law_script_is_refused(line: Seq<char>)
    requires
        is_script_list(text::trimmed(without_comment(line))),
    ensures
        check_line(line, None).0 == Some(Refusal::Script),
        without_comment(line)[0] != ' ' && without_comment(line)[0] != '\t' ==> directive_refusal(
            line,
        ) == Some(Refusal::Script),
{
}

/// A byte order mark at the start makes no difference.
pub proof fn law_mark_makes_no_difference(s: Seq<char>)
    requires
        s.len() == 0 || s[0] != '\u{feff}',
    ensures
        refusal_of(seq!['\u{feff}'] + s) == refusal_of(s),
{
    assert((seq!['\u{feff}'] + s).skip(1) =~= s);
}

/// The bytes of a byte order mark in UTF-8.
pub open spec fn mark_bytes() -> Seq<u8> {
    seq![0xefu8, 0xbbu8, 0xbfu8]
}

/// A byte order mark is written as those bytes.
proof fn lemma_mark_bytes()
    ensures
        vstd::utf8::encode_utf8(seq!['\u{feff}']) == mark_bytes(),
{
    let c = '\u{feff}' as u32;
    let mark = seq!['\u{feff}'];
    assert(c == 0xfeff);
    assert((0xe0u8 | (((0xfeffu32 >> 12) & 0x0f) as u8)) == 0xefu8) by (bit_vector);
    assert((0x80u8 | (((0xfeffu32 >> 6) & 0x3f) as u8)) == 0xbbu8) by (bit_vector);
    assert((0x80u8 | ((0xfeffu32 & 0x3f) as u8)) == 0xbfu8) by (bit_vector);
    assert(vstd::utf8::encode_scalar(c) =~= mark_bytes());
    assert(vstd::utf8::encode_utf8(mark.drop_first()) =~= seq![]);
    assert(vstd::utf8::encode_utf8(mark) =~= mark_bytes());
}

/// The bytes of a byte order mark before those of a justfile make no difference.
pub proof fn law_mark_bytes_make_no_difference(bytes: Seq<u8>)
    requires
        vstd::utf8::valid_utf8(bytes),
        !(bytes.len() >= 3 && bytes.take(3) == mark_bytes()),
    ensures
        vstd::utf8::valid_utf8(mark_bytes() + bytes),
        refusal_of(vstd::utf8::decode_utf8(mark_bytes() + bytes)) == refusal_of(
            vstd::utf8::decode_utf8(bytes),
        ),
{
    let s = vstd::utf8::decode_utf8(bytes);
    let marked = seq!['\u{feff}'] + s;
    vstd::utf8::decode_utf8_encode_utf8(bytes);
    lemma_mark_bytes();
    let one = seq!['\u{feff}'];
    assert(one.drop_first() =~= seq![]);
    assert(marked.drop_first() =~= s);
    assert(vstd::utf8::encode_utf8(one) =~= vstd::utf8::encode_scalar('\u{feff}' as u32));
    assert(vstd::utf8::encode_utf8(marked) =~= mark_bytes() + bytes);
    vstd::utf8::encode_utf8_valid_utf8(marked);
    vstd::utf8::encode_utf8_decode_utf8(marked);
    if s.len() > 0 && s[0] == '\u{feff}' {
        assert(bytes == mark_bytes() + vstd::utf8::encode_utf8(s.drop_first()));
        assert(bytes.take(3) =~= mark_bytes());
    }
    law_mark_makes_no_difference(s);
}

/// An accepted justfile is self-contained: none of its logical lines outside recipe
/// bodies and attributes is a refused setting or a source directive.
pub proof fn law_accepted_is_self_contained(s: Seq<char>, k: int)
    requires
        refusal_of(s) is None,
        0 <= k < logical_lines(text::lines(without_mark(s)), 0, seq![]).len(),
    ensures
        ({
            let lines = logical_lines(text::lines(without_mark(s)), 0, seq![]);
            let shown = without_comment(lines[k]);
            let t = text::trimmed(shown);
            let body = shown.len() > 0 && (shown[0] == ' ' || shown[0] == '\t');
            let attribute = block_before(lines, None, k) is Some || (t.len() > 0 && t[0] == '[');
            !body && !attribute && t.len() > 0 ==> !is_refused_setting(t) && !is_source(
                t,
                "import"@,
            ) && !is_source(t, "mod"@)
        }),
{
    let lines = logical_lines(text::lines(without_mark(s)), 0, seq![]);
    law_accepted_lines(lines, None);
    assert(check_line(lines[k], block_before(lines, None, k)).0 is None);
}

/// What stands behind an unquoted `#` makes no difference to what a line is refused
/// for, unless the line is a shebang.
pub proof fn law_comment_makes_no_difference(line: Seq<char>, block: Option<Seq<char>>)
    requires
        !text::starts_with(text::trimmed(line), "#!"@),
    ensures
        check_line(without_comment(line), block) == check_line(line, block),
{
    let n = find_bare(line, '#', 0);
    let shown = line.take(n);
    lemma_find_bare(line, '#', 0);
    lemma_find_bare_taken(line, '#', 0, n);
    assert(shown.take(n) =~= shown);
    reveal_strlit("#!");
    let t = text::trimmed(shown);
    if text::starts_with(t, "#!"@) {
        let j = lemma_first_dark(shown);
        lemma_end_is_cut(text::trimmed_start(shown));
        assert(t[0] == "#!"@[0]);
        assert(shown[j] == '#');
        lemma_unquoted(shown, j);
        lemma_find_bare_before(shown, '#', 0, j);
    }
}

/// How many white characters stand at the start of `s`.
proof fn lemma_first_dark(s: Seq<char>) -> (j: int)
    ensures
        0 <= j <= s.len(),
        text::trimmed_start(s) == s.skip(j),
        forall|k: int| 0 <= k < j ==> text::is_white(#[trigger] s[k]),
    decreases s.len(),
{
    if s.len() > 0 && text::is_white(s[0]) {
        let t = s.skip(1);
        let j = lemma_first_dark(t);
        assert(t.skip(j) =~= s.skip(j + 1));
        assert forall|k: int| 0 <= k < j + 1 implies text::is_white(#[trigger] s[k]) by {
            if k > 0 {
                assert(t[k - 1] == s[k]);
            }
        }
        j + 1
    } else {
        assert(s.skip(0) =~= s);
        0
    }
}

/// Without the white characters at its end, `s` is one of its beginnings.
proof fn lemma_end_is_cut(s: Seq<char>)
    ensures
        text::trimmed_end(s).len() <= s.len(),
        text::trimmed_end(s) == s.take(text::trimmed_end(s).len() as int),
    decreases s.len(),
{
    if s.len() > 0 && text::is_white(s.last()) {
        lemma_end_is_cut(s.drop_last());
        let n = text::trimmed_end(s).len() as int;
        assert(s.drop_last().take(n) =~= s.take(n));
    } else {
        assert(s.take(s.len() as int) =~= s);
    }
}

/// White characters open no quote.
proof fn lemma_unquoted(s: Seq<char>, j: int)
    requires
        0 <= j <= s.len(),
        forall|k: int| 0 <= k < j ==> text::is_white(#[trigger] s[k]),
    ensures
        open_quote(s, j) is None,
    decreases j,
{
    if j > 0 {
        lemma_unquoted(s, j - 1);
        assert(text::is_white(s[j - 1]));
    }
}

/// A bare `c` is found no later than where it stands.
proof fn lemma_find_bare_before(s: Seq<char>, c: char, i: int, j: int)
    requires
        0 <= i <= j < s.len(),
        s[j] == c,
        open_quote(s, j) is None,
    ensures
        find_bare(s, c, i) <= j,
    decreases j - i,
{
    if i < j {
        lemma_find_bare_before(s, c, i + 1, j);
    }
}

proof fn lemma_find_bare(s: Seq<char>, c: char, i: int)
    requires
        0 <= i <= s.len(),
    ensures
        i <= find_bare(s, c, i) <= s.len(),
    decreases s.len() - i,
{
    if i < s.len() && !(s[i] == c && open_quote(s, i) is None) {
        lemma_find_bare(s, c, i + 1);
    }
}

proof fn lemma_backslashes_taken(s: Seq<char>, n: int, i: int)
    requires
        0 <= i <= n <= s.len(),
    ensures
        backslashes_before(s.take(n), i) == backslashes_before(s, i),
    decreases i,
{
    if i > 0 {
        lemma_backslashes_taken(s, n, i - 1);
    }
}

proof fn lemma_quote_taken(s: Seq<char>, n: int, i: int)
    requires
        0 <= i <= n <= s.len(),
    ensures
        open_quote(s.take(n), i) == open_quote(s, i),
    decreases i,
{
    if i > 0 {
        lemma_quote_taken(s, n, i - 1);
        lemma_backslashes_taken(s, n, i - 1);
    }
}

proof fn lemma_find_bare_taken(s: Seq<char>, c: char, i: int, n: int)
    requires
        0 <= i <= n,
        n == find_bare(s, c, i),
        n <= s.len(),
    ensures
        find_bare(s.take(n), c, i) == n,
    decreases n - i,
{
    if i < n {
        lemma_quote_taken(s, n, i);
        lemma_find_bare_taken(s, c, i + 1, n);
    }
}

} // verus!
