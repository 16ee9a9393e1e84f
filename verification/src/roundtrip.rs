//! Reading gives back what was written: the laws that tie the JSON writer and
//! the parser together.

use crate::json;
use crate::parser;
use crate::text;
use vstd::prelude::*;

verus! {

/// Can `v` be a value of this library: do its numbers fit in 64 bits, and are
/// the members of its objects in the order of their keys?
pub open spec fn canonical(v: json::Json) -> bool
    decreases v,
{
    match v {
        json::Json::Number(n) => i64::MIN <= n <= i64::MAX,
        json::Json::Arr(items) => forall|i: int|
            0 <= i < items.len() ==> canonical(#[trigger] items[i]),
        json::Json::Obj(m) => json::ordered(m) && forall|i: int|
            0 <= i < m.len() ==> canonical((#[trigger] m[i]).1),
        _ => true,
    }
}

/// The members `m` from the `n`-th on, set one after the other.
pub open spec fn add_members(
    done: Seq<(Seq<char>, json::Json)>,
    m: Seq<(Seq<char>, json::Json)>,
    n: int,
) -> Seq<(Seq<char>, json::Json)>
    decreases m.len() - n,
{
    if 0 <= n < m.len() {
        add_members(json::with_member(done, m[n].0, m[n].1), m, n + 1)
    } else {
        done
    }
}

/// Does the text `t` stand at `i`?
pub open spec fn stands_at(s: Seq<char>, i: int, t: Seq<char>) -> bool {
    0 <= i && i + t.len() <= s.len() && forall|k: int|
        0 <= k < t.len() ==> s[i + k] == #[trigger] t[k]
}

proof fn lemma_stands_split(s: Seq<char>, i: int, a: Seq<char>, b: Seq<char>)
    requires
        stands_at(s, i, a + b),
    ensures
        stands_at(s, i, a),
        stands_at(s, i + a.len(), b),
{
    assert forall|k: int| 0 <= k < a.len() implies s[i + k] == #[trigger] a[k] by {
        assert((a + b)[k] == a[k]);
    }
    assert forall|k: int| 0 <= k < b.len() implies s[i + a.len() + k] == #[trigger] b[k] by {
        assert((a + b)[a.len() + k] == b[k]);
    }
}

proof fn lemma_stands_split3(s: Seq<char>, i: int, a: Seq<char>, b: Seq<char>, c: Seq<char>)
    requires
        stands_at(s, i, a + b + c),
    ensures
        stands_at(s, i, a),
        stands_at(s, i + a.len(), b),
        stands_at(s, i + a.len() + b.len(), c),
{
    lemma_stands_split(s, i, a + b, c);
    lemma_stands_split(s, i, a, b);
}

/// An escaped character reads back as that character.
proof fn lemma_escape(s: Seq<char>, i: int, c: char)
    requires
        stands_at(s, i, json::escape(c)),
    ensures
        parser::chars_at(s, i) == (match parser::chars_at(s, i + json::escape(c).len()) {
            None => None,
            Some((rest, k)) => Some((seq![c] + rest, k)),
        }),
{
    let e = json::escape(c);
    reveal(parser::escape_at);
    assert(s[i] == e[0]);
    if e.len() == 1 {
        assert(e[0] == c);
    } else {
        assert(e[0] == '\\');
        assert(s[i + 1] == e[1]);
        if e.len() == 6 {
            assert(s[i + 2] == e[2]);
            assert(s[i + 3] == e[3]);
            assert(s[i + 4] == e[4]);
            assert(s[i + 5] == e[5]);
            assert(parser::hex4_at(s, i + 2) == Some(c as int));
            assert(parser::escape_at(s, i + 1) == Some((c, i + 6)));
        } else {
            assert(e.len() == 2);
            assert(parser::escape_at(s, i + 1) == Some((c, i + 2)));
        }
    }
}

/// The inside of a JSON string reads back as the characters it was made from.
proof fn lemma_chars(s: Seq<char>, i: int, t: Seq<char>)
    requires
        stands_at(s, i, json::escaped(t) + seq!['"']),
    ensures
        parser::chars_at(s, i) == Some((t, i + json::escaped(t).len() + 1)),
    decreases t.len(),
{
    lemma_stands_split(s, i, json::escaped(t), seq!['"']);
    if t.len() == 0 {
        assert(s[i] == seq!['"'][0]);
        assert(t =~= seq![]);
    } else {
        let a = json::escape(t[0]);
        let b = json::escaped(t.skip(1));
        assert(json::escaped(t) + seq!['"'] =~= a + (b + seq!['"']));
        lemma_stands_split(s, i, a, b + seq!['"']);
        lemma_escape(s, i, t[0]);
        lemma_chars(s, i + a.len(), t.skip(1));
        assert(seq![t[0]] + t.skip(1) =~= t);
    }
}

pub proof fn lemma_digits_end(s: Seq<char>, i: int, j: int)
    requires
        0 <= i <= j <= s.len(),
        text::all_digits(s.subrange(i, j)),
        j < s.len() ==> !text::is_digit(s[j]),
    ensures
        parser::after_digits(s, i) == j,
    decreases j - i,
{
    if i < j {
        let t = s.subrange(i, j);
        let u = s.subrange(i + 1, j);
        assert(text::is_digit(t[0]));
        assert forall|k: int| 0 <= k < u.len() implies text::is_digit(#[trigger] u[k]) by {
            assert(u[k] == t[k + 1]);
        }
        lemma_digits_end(s, i + 1, j);
    }
}

/// A number reads back as itself, where no further digit follows.
proof fn lemma_number(s: Seq<char>, i: int, n: int)
    requires
        stands_at(s, i, text::signed_decimal(n)),
        i64::MIN <= n <= i64::MAX,
        ({
            let j = i + text::signed_decimal(n).len();
            j < s.len() ==> !text::is_digit(s[j])
        }),
    ensures
        parser::number_at(s, i) == Some((n, i + text::signed_decimal(n).len())),
        text::signed_decimal(n).len() >= 1,
        s[i] == '-' || text::is_digit(s[i]),
{
    let t = text::signed_decimal(n);
    let end = i + t.len();
    if n < 0 {
        let d = text::decimal((-n) as nat);
        text::law_decimal_reads_back((-n) as nat);
        lemma_stands_split(s, i, seq!['-'], d);
        assert(s[i] == seq!['-'][0]);
        assert(s.subrange(i + 1, end) =~= d);
        lemma_digits_end(s, i + 1, end);
    } else {
        text::law_decimal_reads_back(n as nat);
        assert(s.subrange(i, end) =~= t);
        assert(text::is_digit(t[0]));
        assert(s[i] == t[0]);
        lemma_digits_end(s, i, end);
    }
}

/// The first character of a value's text is no white space.
proof fn lemma_first(s: Seq<char>, i: int, v: json::Json)
    requires
        stands_at(s, i, json::value_text(v)),
    ensures
        json::value_text(v).len() >= 1,
        !parser::is_space(s[i]),
        v is Obj ==> s[i] == '{',
        v is Arr ==> s[i] == '[',
        v is Str ==> s[i] == '"',
        s[i] != ']' && s[i] != '}',
{
    let t = json::value_text(v);
    match v {
        json::Json::Number(n) => {
            if n < 0 {
                text::law_decimal_reads_back((-n) as nat);
                assert(t[0] == '-');
            } else {
                text::law_decimal_reads_back(n as nat);
                assert(text::is_digit(t[0]));
            }
        },
        json::Json::Arr(items) => {
            assert(t[0] == '[');
        },
        json::Json::Obj(m) => {
            assert(t[0] == '{');
        },
        json::Json::Str(x) => {
            assert(t[0] == '"');
        },
        json::Json::Bool(b) => {
            assert(t[0] == 't' || t[0] == 'f');
        },
        json::Json::Null => {
            assert(t[0] == 'n');
        },
    }
    assert(s[i + 0] == t[0]);
}

/// The text of a canonical value reads back as that value.
proof fn lemma_value(s: Seq<char>, i: int, v: json::Json)
    requires
        stands_at(s, i, json::value_text(v)),
        canonical(v),
        ({
            let j = i + json::value_text(v).len();
            v is Number && j < s.len() ==> !text::is_digit(s[j])
        }),
    ensures
        parser::value_at(s, i) == Some((v, i + json::value_text(v).len())),
    decreases v, 0int,
{
    let t = json::value_text(v);
    lemma_first(s, i, v);
    assert(parser::after_space(s, i) == i);
    match v {
        json::Json::Null => {
            assert(s.subrange(i, i + 4) =~= seq!['n', 'u', 'l', 'l']);
            assert(s[i] == t[0]);
            assert(s.subrange(i, i + 4)[0] == 'n');
            if parser::word_at(s, i, seq!['t', 'r', 'u', 'e']) {
                assert(seq!['t', 'r', 'u', 'e'][0] == 't');
            }
            if parser::word_at(s, i, seq!['f', 'a', 'l', 's', 'e']) {
                assert(seq!['f', 'a', 'l', 's', 'e'][0] == s.subrange(i, i + 5)[0]);
            }
        },
        json::Json::Bool(b) => {
            assert(s[i] == t[0]);
            if b {
                assert(s.subrange(i, i + 4) =~= seq!['t', 'r', 'u', 'e']);
            } else {
                assert(s.subrange(i, i + 5) =~= seq!['f', 'a', 'l', 's', 'e']);
                if parser::word_at(s, i, seq!['t', 'r', 'u', 'e']) {
                    assert(seq!['t', 'r', 'u', 'e'][0] == s.subrange(i, i + 4)[0]);
                }
            }
        },
        json::Json::Number(n) => {
            lemma_number(s, i, n);
            assert(s[i] == t[0]);
            if parser::word_at(s, i, seq!['t', 'r', 'u', 'e']) {
                assert(seq!['t', 'r', 'u', 'e'][0] == s.subrange(i, i + 4)[0]);
            }
            if parser::word_at(s, i, seq!['f', 'a', 'l', 's', 'e']) {
                assert(seq!['f', 'a', 'l', 's', 'e'][0] == s.subrange(i, i + 5)[0]);
            }
            if parser::word_at(s, i, seq!['n', 'u', 'l', 'l']) {
                assert(seq!['n', 'u', 'l', 'l'][0] == s.subrange(i, i + 4)[0]);
            }
        },
        json::Json::Str(x) => {
            assert(t =~= seq!['"'] + (json::escaped(x) + seq!['"']));
            lemma_stands_split(s, i, seq!['"'], json::escaped(x) + seq!['"']);
            lemma_chars(s, i + 1, x);
        },
        json::Json::Arr(items) => {
            lemma_stands_split3(s, i, seq!['['], json::items_text(items, 0), seq![']']);
            if items.len() == 0 {
                assert(s[i + 1 + 0] == seq![']'][0]);
                assert(parser::after_space(s, i + 1) == i + 1);
                assert(items =~= seq![]);
            } else {
                assert(t =~= seq!['['] + (json::items_text(items, 0) + seq![']']));
                lemma_stands_split(s, i, seq!['['], json::items_text(items, 0) + seq![']']);
                lemma_items_first(s, i + 1, items, 0);
                assert(items.take(0) =~= seq![]);
                assert(decreases_to!(v => items));
                lemma_items(s, i + 1, items, 0);
            }
        },
        json::Json::Obj(m) => {
            assert(decreases_to!(v => m));
            lemma_object(s, i, m);
            lemma_add_members(m, 0);
            assert(m.take(0) =~= seq![]);
        },
    }
}

proof fn lemma_items_first(s: Seq<char>, i: int, items: Seq<json::Json>, n: int)
    requires
        0 <= n < items.len(),
        stands_at(s, i, json::items_text(items, n) + seq![']']),
    ensures
        i < s.len(),
        stands_at(s, i, json::value_text(items[n])),
        parser::after_space(s, i) == i,
        s[i] != ']',
{
    let a = json::value_text(items[n]);
    if n + 1 == items.len() {
        lemma_stands_split(s, i, a, seq![']']);
    } else {
        let b = seq![','] + json::items_text(items, n + 1) + seq![']'];
        assert(json::items_text(items, n) + seq![']'] =~= a + b);
        lemma_stands_split(s, i, a, b);
    }
    lemma_first(s, i, items[n]);
}

/// The items of an array read back one after the other.
proof fn lemma_items(s: Seq<char>, i: int, items: Seq<json::Json>, n: int)
    requires
        0 <= n < items.len(),
        stands_at(s, i, json::items_text(items, n) + seq![']']),
        forall|k: int| 0 <= k < items.len() ==> canonical(#[trigger] items[k]),
    ensures
        parser::items_at(s, i, items.take(n)) == Some(
            (items, i + json::items_text(items, n).len() + 1),
        ),
    decreases items, items.len() - n,
{
    let v = items[n];
    let a = json::value_text(v);
    let k = i + a.len();
    assert(items.take(n).push(v) =~= items.take(n + 1));
    assert(decreases_to!(items => items[n]));
    if n + 1 == items.len() {
        lemma_stands_split(s, i, a, seq![']']);
        assert(s[k + 0] == seq![']'][0]);
        lemma_value(s, i, v);
        assert(items.take(n + 1) =~= items);
    } else {
        let b = json::items_text(items, n + 1) + seq![']'];
        assert(json::items_text(items, n) + seq![']'] =~= a + (seq![','] + b));
        lemma_stands_split(s, i, a, seq![','] + b);
        lemma_stands_split(s, k, seq![','], b);
        assert(s[k + 0] == seq![','][0]);
        lemma_value(s, i, v);
        lemma_items(s, k + 1, items, n + 1);
    }
    assert(parser::after_space(s, k) == k);
}

/// The text of an object reads back as its members, set one after the other.
pub proof fn lemma_object(s: Seq<char>, i: int, m: Seq<(Seq<char>, json::Json)>)
    requires
        stands_at(s, i, json::object_text(m)),
        forall|k: int| 0 <= k < m.len() ==> canonical((#[trigger] m[k]).1),
    ensures
        parser::value_at(s, i) == Some(
            (json::Json::Obj(add_members(seq![], m, 0)), i + json::object_text(m).len()),
        ),
    decreases m, m.len() + 1,
{
    let body = json::members_text(m, 0);
    lemma_stands_split3(s, i, seq!['{'], body, seq!['}']);
    assert(s[i + 0] == seq!['{'][0]);
    assert(parser::after_space(s, i) == i);
    if m.len() == 0 {
        assert(s[i + 1 + 0] == seq!['}'][0]);
        assert(parser::after_space(s, i + 1) == i + 1);
    } else {
        assert(json::object_text(m) =~= seq!['{'] + (body + seq!['}']));
        lemma_stands_split(s, i, seq!['{'], body + seq!['}']);
        lemma_members(s, i + 1, m, 0, seq![]);
        assert(s[i + 1] == '"') by {
            lemma_member_first(s, i + 1, m, 0);
        }
        assert(parser::after_space(s, i + 1) == i + 1);
    }
}

proof fn lemma_member_first(s: Seq<char>, i: int, m: Seq<(Seq<char>, json::Json)>, n: int)
    requires
        0 <= n < m.len(),
        stands_at(s, i, json::members_text(m, n) + seq!['}']),
    ensures
        s[i] == '"',
{
    let a = json::member_text(m[n]);
    let t = json::members_text(m, n) + seq!['}'];
    assert(a[0] == '"');
    assert(t[0] == a[0]);
    assert(s[i + 0] == t[0]);
}

/// The members of an object read back one after the other.
proof fn lemma_members(
    s: Seq<char>,
    i: int,
    m: Seq<(Seq<char>, json::Json)>,
    n: int,
    done: Seq<(Seq<char>, json::Json)>,
)
    requires
        0 <= n < m.len(),
        stands_at(s, i, json::members_text(m, n) + seq!['}']),
        forall|k: int| 0 <= k < m.len() ==> canonical((#[trigger] m[k]).1),
    ensures
        parser::members_at(s, i, done) == Some(
            (add_members(done, m, n), i + json::members_text(m, n).len() + 1),
        ),
    decreases m, m.len() - n,
{
    let key = m[n].0;
    let v = m[n].1;
    let inside = json::escaped(key) + seq!['"'];
    let a = seq!['"'] + inside;
    let b = json::value_text(v);
    let tail = if n + 1 == m.len() {
        seq!['}']
    } else {
        seq![','] + (json::members_text(m, n + 1) + seq!['}'])
    };
    assert(json::member_text(m[n]) =~= a + (seq![':'] + b));
    if n + 1 == m.len() {
        assert(json::members_text(m, n) == json::member_text(m[n]));
    } else {
        assert(json::members_text(m, n) == json::member_text(m[n]) + seq![','] + json::members_text(
            m,
            n + 1,
        ));
    }
    assert(json::members_text(m, n) + seq!['}'] =~= a + (seq![':'] + (b + tail)));
    lemma_stands_split(s, i, a, seq![':'] + (b + tail));
    lemma_stands_split(s, i, seq!['"'], inside);
    assert(s[i + 0] == seq!['"'][0]);
    assert(parser::after_space(s, i) == i);
    lemma_chars(s, i + 1, key);
    let j = i + a.len();
    assert(parser::string_at(s, i) == Some((key, j)));
    lemma_stands_split(s, j, seq![':'], b + tail);
    assert(s[j + 0] == seq![':'][0]);
    assert(parser::after_space(s, j) == j);
    lemma_stands_split(s, j + 1, b, tail);
    let k = j + 1 + b.len();
    assert(decreases_to!(m => m[n]));
    assert(decreases_to!(m[n] => m[n].1));
    assert(s[k + 0] == tail[0]);
    lemma_first(s, j + 1, v);
    lemma_value(s, j + 1, v);
    assert(parser::after_space(s, k) == k);
    let next = json::with_member(done, key, v);
    assert(add_members(done, m, n) == add_members(next, m, n + 1));
    if n + 1 < m.len() {
        lemma_stands_split(s, k, seq![','], json::members_text(m, n + 1) + seq!['}']);
        lemma_members(s, k + 1, m, n + 1, next);
    } else {
        assert(add_members(next, m, n + 1) == next);
        assert(parser::members_at(s, i, done) == Some((next, k + 1)));
    }
}

/// Members in order, set one after the other, are themselves.
proof fn lemma_add_members(m: Seq<(Seq<char>, json::Json)>, n: int)
    requires
        json::ordered(m),
        0 <= n <= m.len(),
    ensures
        add_members(m.take(n), m, n) == m,
    decreases m.len() - n,
{
    if n < m.len() {
        let d = m.take(n);
        json::lemma_place(d, m[n].0, 0);
        let p = json::place_of(d, m[n].0, 0);
        if p < d.len() {
            assert(d[p] == m[p]);
        }
        assert(p == n);
        assert(d.insert(n, m[n]) =~= m.take(n + 1));
        lemma_add_members(m, n + 1);
    } else {
        assert(m.take(n) =~= m);
    }
}

/// White space from `i` up to `j`, and none at `j`: reading goes on at `j`.
proof fn lemma_space_end(s: Seq<char>, i: int, j: int)
    requires
        0 <= i <= j <= s.len(),
        forall|k: int| i <= k < j ==> parser::is_space(#[trigger] s[k]),
        j < s.len() ==> !parser::is_space(s[j]),
    ensures
        parser::after_space(s, i) == j,
    decreases j - i,
{
    if i < j {
        assert(parser::is_space(s[i]));
        lemma_space_end(s, i + 1, j);
    }
}

/// Does `s` hold nothing but white space of JSON?
pub open spec fn all_space(s: Seq<char>) -> bool {
    forall|k: int| 0 <= k < s.len() ==> parser::is_space(#[trigger] s[k])
}

/// Where the text `t` reads as `v`, it still does with white space around it.
pub proof fn lemma_parse_in_space(
    before: Seq<char>,
    t: Seq<char>,
    after: Seq<char>,
    v: json::Json,
)
    requires
        all_space(before),
        all_space(after),
        t.len() > 0,
        !parser::is_space(t[0]),
        parser::value_at(before + t + after, before.len() as int) == Some(
            (v, before.len() + t.len() as int),
        ),
    ensures
        parser::parse(before + t + after) == Some(v),
{
    let s = before + t + after;
    let i = before.len() as int;
    let j = i + t.len();
    assert(s[i] == t[0]);
    assert forall|k: int| 0 <= k < i implies parser::is_space(#[trigger] s[k]) by {
        assert(s[k] == before[k]);
    }
    assert forall|k: int| j <= k < s.len() implies parser::is_space(#[trigger] s[k]) by {
        assert(s[k] == after[k - j]);
    }
    lemma_space_end(s, 0, i);
    lemma_space_end(s, i, i);
    lemma_space_end(s, j, s.len() as int);
    assert(parser::value_at(s, 0) == parser::value_at(s, i));
}

/// Every value reads back from its own text, whatever white space stands around it.
pub proof fn law_value_reads_back_in_space(v: json::Json, before: Seq<char>, after: Seq<char>)
    requires
        canonical(v),
        all_space(before),
        all_space(after),
    ensures
        parser::parse(before + json::value_text(v) + after) == Some(v),
{
    let t = json::value_text(v);
    let s = before + t + after;
    let i = before.len() as int;
    let j = i + t.len();
    assert(stands_at(s, i, t));
    if j < s.len() {
        assert(s[j] == after[0]);
    }
    lemma_first(s, i, v);
    assert(s[i] == t[0]);
    lemma_value(s, i, v);
    lemma_parse_in_space(before, t, after, v);
}

/// Every value reads back from its own text.
pub proof fn law_value_reads_back(v: json::Json)
    requires
        canonical(v),
    ensures
        parser::parse(json::value_text(v)) == Some(v),
{
    law_value_reads_back_in_space(v, seq![], seq![]);
    assert(seq![] + json::value_text(v) + seq![] =~= json::value_text(v));
}

/// Does `s` hold no control character below U+0020?
pub open spec fn no_controls(s: Seq<char>) -> bool {
    forall|k: int| 0 <= k < s.len() ==> #[trigger] s[k] as int >= 0x20
}

proof fn lemma_no_controls_add(a: Seq<char>, b: Seq<char>)
    requires
        no_controls(a),
        no_controls(b),
    ensures
        no_controls(a + b),
{
    assert forall|k: int| 0 <= k < (a + b).len() implies #[trigger] (a + b)[k] as int >= 0x20 by {
        if k >= a.len() {
            assert((a + b)[k] == b[k - a.len()]);
        } else {
            assert((a + b)[k] == a[k]);
        }
    }
}

proof fn lemma_no_controls_escape(c: char)
    ensures
        no_controls(json::escape(c)),
{
    let d = c as int;
    if d < 0x20 {
        assert(0 <= d / 16 < 2 && 0 <= d % 16 < 16);
        assert(json::hex_char(d / 16) as int >= 48);
        assert(json::hex_char(d % 16) as int >= 48);
    }
}

proof fn lemma_no_controls_string(s: Seq<char>)
    ensures
        no_controls(json::escaped(s)),
        no_controls(json::string_text(s)),
    decreases s.len(),
{
    if s.len() > 0 {
        lemma_no_controls_string(s.skip(1));
        lemma_no_controls_escape(s[0]);
        lemma_no_controls_add(json::escape(s[0]), json::escaped(s.skip(1)));
    }
    lemma_no_controls_add(seq!['"'], json::escaped(s));
    lemma_no_controls_add(seq!['"'] + json::escaped(s), seq!['"']);
}

proof fn lemma_no_controls_items(items: Seq<json::Json>, n: int)
    requires
        0 <= n,
    ensures
        no_controls(json::items_text(items, n)),
    decreases items, items.len() - n,
{
    if n < items.len() {
        assert(decreases_to!(items => items[n]));
        law_text_has_no_controls(items[n]);
        let a = json::value_text(items[n]);
        if n + 1 < items.len() {
            lemma_no_controls_items(items, n + 1);
            lemma_no_controls_add(a, seq![',']);
            lemma_no_controls_add(a + seq![','], json::items_text(items, n + 1));
        }
    }
}

proof fn lemma_no_controls_members(m: Seq<(Seq<char>, json::Json)>, n: int)
    requires
        0 <= n,
    ensures
        no_controls(json::members_text(m, n)),
    decreases m, m.len() - n,
{
    if n < m.len() {
        assert(decreases_to!(m => m[n]));
        assert(decreases_to!(m[n] => m[n].1));
        law_text_has_no_controls(m[n].1);
        lemma_no_controls_string(m[n].0);
        let a = json::member_text(m[n]);
        let k = json::string_text(m[n].0);
        lemma_no_controls_add(k, seq![':']);
        lemma_no_controls_add(k + seq![':'], json::value_text(m[n].1));
        if n + 1 < m.len() {
            lemma_no_controls_members(m, n + 1);
            lemma_no_controls_add(a, seq![',']);
            lemma_no_controls_add(a + seq![','], json::members_text(m, n + 1));
        }
    }
}

/// The text of a value holds no control character below U+0020: those in strings
/// are escaped, and nothing else is written between the tokens.
pub proof fn law_text_has_no_controls(v: json::Json)
    ensures
        no_controls(json::value_text(v)),
    decreases v, 0int,
{
    match v {
        json::Json::Number(n) => {
            if n < 0 {
                text::law_decimal_reads_back((-n) as nat);
            } else {
                text::law_decimal_reads_back(n as nat);
            }
            let t = json::value_text(v);
            assert forall|k: int| 0 <= k < t.len() implies #[trigger] t[k] as int >= 0x20 by {
                if n < 0 {
                    if k > 0 {
                        assert(t[k] == text::decimal((-n) as nat)[k - 1]);
                    }
                } else {
                    assert(t[k] == text::decimal(n as nat)[k]);
                }
            }
        },
        json::Json::Str(x) => {
            lemma_no_controls_string(x);
        },
        json::Json::Arr(items) => {
            assert(decreases_to!(v => items));
            lemma_no_controls_items(items, 0);
            lemma_no_controls_add(seq!['['], json::items_text(items, 0));
            lemma_no_controls_add(seq!['['] + json::items_text(items, 0), seq![']']);
        },
        json::Json::Obj(m) => {
            assert(decreases_to!(v => m));
            lemma_no_controls_members(m, 0);
            lemma_no_controls_add(seq!['{'], json::members_text(m, 0));
            lemma_no_controls_add(seq!['{'] + json::members_text(m, 0), seq!['}']);
        },
        _ => {},
    }
}

} // verus!
