//! The parser of the JSON dialect of stored events.
//!
//! It is strict: no unescaped control characters inside strings, no lone
//! surrogates, nothing but white space behind the value, and no number that
//! does not fit in 64 bits.

use crate::json;
use crate::json::{JsonObject, JsonValue};
use crate::text;
use vstd::prelude::*;

verus! {

/// `char::from_u32` gives the character with the code `i`, where `i` is the
/// code of a Unicode scalar value, and `None` for every other number.
pub assume_specification[ char::from_u32 ](i: u32) -> (r: Option<char>)
    ensures
        match r {
            Some(c) => c == i as char && c as u32 == i,
            None => 0xd800 <= i <= 0xdfff || i > 0x10ffff,
        },
;

/// Is `c` white space between JSON tokens?
pub open spec fn is_space(c: char) -> bool {
    c == ' ' || c == '\t' || c == '\r' || c == '\n'
}

/// The first place from `i` on that holds no white space.
pub open spec fn after_space(s: Seq<char>, i: int) -> int
    decreases s.len() - i,
{
    if 0 <= i < s.len() && is_space(s[i]) {
        after_space(s, i + 1)
    } else {
        i
    }
}

/// The value of the hexadecimal digit `c`, in either case.
pub open spec fn hex_value(c: char) -> Option<int> {
    if '0' <= c <= '9' {
        Some(c as int - 48)
    } else if 'a' <= c <= 'f' {
        Some(c as int - 87)
    } else if 'A' <= c <= 'F' {
        Some(c as int - 55)
    } else {
        None
    }
}

/// The number that the four characters from `i` on stand for, where they are
/// hexadecimal digits.
pub open spec fn hex4_at(s: Seq<char>, i: int) -> Option<int> {
    if i + 4 > s.len() {
        None
    } else {
        match (hex_value(s[i]), hex_value(s[i + 1]), hex_value(s[i + 2]), hex_value(s[i + 3])) {
            (Some(a), Some(b), Some(c), Some(d)) => Some(a * 4096 + b * 256 + c * 16 + d),
            _ => None,
        }
    }
}

/// The character that the escape stands for whose letter is at `i` (behind the
/// backslash), and the place behind the escape.
#[verifier::opaque]
pub open spec fn escape_at(s: Seq<char>, i: int) -> Option<(char, int)> {
    if i >= s.len() {
        None
    } else if s[i] == 'n' {
        Some(('\n', i + 1))
    } else if s[i] == 't' {
        Some(('\t', i + 1))
    } else if s[i] == 'r' {
        Some(('\r', i + 1))
    } else if s[i] == 'b' {
        Some(('\u{8}', i + 1))
    } else if s[i] == 'f' {
        Some(('\u{c}', i + 1))
    } else if s[i] == '\\' || s[i] == '"' || s[i] == '/' {
        Some((s[i], i + 1))
    } else if s[i] == 'u' {
        match hex4_at(s, i + 1) {
            None => None,
            Some(hi) => if 0xd800 <= hi <= 0xdbff {
                // A high surrogate takes the low surrogate that follows at once.
                if i + 7 <= s.len() && s[i + 5] == '\\' && s[i + 6] == 'u' {
                    match hex4_at(s, i + 7) {
                        Some(lo) => if 0xdc00 <= lo <= 0xdfff {
                            Some(((0x10000 + (hi - 0xd800) * 1024 + (lo - 0xdc00)) as char, i + 11))
                        } else {
                            None
                        },
                        None => None,
                    }
                } else {
                    None
                }
            } else if 0xdc00 <= hi <= 0xdfff {
                None
            } else {
                Some((hi as char, i + 5))
            },
        }
    } else {
        None
    }
}

/// The characters of the string whose first one is at `i` (behind the opening
/// quote), and the place behind the closing quote.
pub open spec fn chars_at(s: Seq<char>, i: int) -> Option<(Seq<char>, int)>
    decreases s.len() - i,
{
    if !(0 <= i < s.len()) {
        None
    } else if s[i] == '"' {
        Some((seq![], i + 1))
    } else if s[i] == '\\' {
        proof {
            lemma_escape_at(s, i + 1);
        }
        match escape_at(s, i + 1) {
            None => None,
            Some((c, j)) => match chars_at(s, j) {
                None => None,
                Some((rest, k)) => Some((seq![c] + rest, k)),
            },
        }
    } else if (s[i] as int) < 0x20 {
        None
    } else {
        match chars_at(s, i + 1) {
            None => None,
            Some((rest, k)) => Some((seq![s[i]] + rest, k)),
        }
    }
}

/// The JSON string that starts behind the white space at `i`, and the place
/// behind it.
pub open spec fn string_at(s: Seq<char>, i: int) -> Option<(Seq<char>, int)> {
    let p = after_space(s, i);
    if 0 <= p < s.len() && s[p] == '"' {
        chars_at(s, p + 1)
    } else {
        None
    }
}

/// The first place from `i` on that holds no decimal digit.
pub open spec fn after_digits(s: Seq<char>, i: int) -> int
    decreases s.len() - i,
{
    if 0 <= i < s.len() && text::is_digit(s[i]) {
        after_digits(s, i + 1)
    } else {
        i
    }
}

/// The number that starts at `i`, and the place behind it.
pub open spec fn number_at(s: Seq<char>, i: int) -> Option<(int, int)> {
    let negative = 0 <= i < s.len() && s[i] == '-';
    let first = if negative {
        i + 1
    } else {
        i
    };
    let end = after_digits(s, first);
    if end == first {
        None
    } else {
        let magnitude = text::digits_value(s.subrange(first, end));
        let n = if negative {
            -magnitude
        } else {
            magnitude
        };
        if i64::MIN <= n <= i64::MAX {
            Some((n, end))
        } else {
            None
        }
    }
}

/// Do the characters `word` stand at `i`?
pub open spec fn word_at(s: Seq<char>, i: int, word: Seq<char>) -> bool {
    i + word.len() <= s.len() && s.subrange(i, i + word.len()) == word
}

pub proof fn lemma_after_space(s: Seq<char>, i: int)
    requires
        0 <= i <= s.len(),
    ensures
        i <= after_space(s, i) <= s.len(),
    decreases s.len() - i,
{
    if i < s.len() && is_space(s[i]) {
        lemma_after_space(s, i + 1);
    }
}

pub proof fn lemma_after_digits(s: Seq<char>, i: int)
    requires
        0 <= i <= s.len(),
    ensures
        i <= after_digits(s, i) <= s.len(),
        text::all_digits(s.subrange(i, after_digits(s, i))),
    decreases s.len() - i,
{
    if i < s.len() && text::is_digit(s[i]) {
        lemma_after_digits(s, i + 1);
        let t = s.subrange(i, after_digits(s, i));
        let u = s.subrange(i + 1, after_digits(s, i));
        assert forall|k: int| 0 <= k < t.len() implies text::is_digit(#[trigger] t[k]) by {
            if k > 0 {
                assert(t[k] == u[k - 1]);
            }
        }
    }
}

pub proof fn lemma_escape_at(s: Seq<char>, i: int)
    requires
        0 <= i,
    ensures
        escape_at(s, i) matches Some((c, j)) ==> i < j <= s.len(),
{
    reveal(escape_at);
}

pub proof fn lemma_chars_at(s: Seq<char>, i: int)
    requires
        0 <= i,
    ensures
        chars_at(s, i) matches Some((t, j)) ==> i < j <= s.len(),
    decreases s.len() - i,
{
    if i < s.len() && s[i] != '"' {
        if s[i] == '\\' {
            lemma_escape_at(s, i + 1);
            if let Some((c, j)) = escape_at(s, i + 1) {
                lemma_chars_at(s, j);
            }
        } else if (s[i] as int) >= 0x20 {
            lemma_chars_at(s, i + 1);
        }
    }
}

pub proof fn lemma_string_at(s: Seq<char>, i: int)
    requires
        0 <= i <= s.len(),
    ensures
        string_at(s, i) matches Some((t, j)) ==> i < j <= s.len(),
{
    lemma_after_space(s, i);
    lemma_chars_at(s, after_space(s, i) + 1);
}

/// The value that starts behind the white space at `i`, and the place behind it.
pub open spec fn value_at(s: Seq<char>, i: int) -> Option<(json::Json, int)>
    decreases s.len() - i, 0int,
{
    if !(0 <= i <= s.len()) {
        None
    } else {
        proof {
            lemma_after_space(s, i);
        }
        let p = after_space(s, i);
        if p >= s.len() {
            None
        } else if s[p] == '{' {
            let q = after_space(s, p + 1);
            if q < s.len() && s[q] == '}' {
                Some((json::Json::Obj(seq![]), q + 1))
            } else {
                match members_at(s, p + 1, seq![]) {
                    None => None,
                    Some((m, j)) => Some((json::Json::Obj(m), j)),
                }
            }
        } else if s[p] == '[' {
            let q = after_space(s, p + 1);
            if q < s.len() && s[q] == ']' {
                Some((json::Json::Arr(seq![]), q + 1))
            } else {
                match items_at(s, p + 1, seq![]) {
                    None => None,
                    Some((m, j)) => Some((json::Json::Arr(m), j)),
                }
            }
        } else if s[p] == '"' {
            match chars_at(s, p + 1) {
                None => None,
                Some((t, j)) => Some((json::Json::Str(t), j)),
            }
        } else if word_at(s, p, seq!['t', 'r', 'u', 'e']) {
            Some((json::Json::Bool(true), p + 4))
        } else if word_at(s, p, seq!['f', 'a', 'l', 's', 'e']) {
            Some((json::Json::Bool(false), p + 5))
        } else if word_at(s, p, seq!['n', 'u', 'l', 'l']) {
            Some((json::Json::Null, p + 4))
        } else if s[p] == '-' || text::is_digit(s[p]) {
            match number_at(s, p) {
                None => None,
                Some((n, j)) => Some((json::Json::Number(n), j)),
            }
        } else {
            None
        }
    }
}

/// The members of an object from `i` on, added to those read before (`done`),
/// and the place behind the closing brace. Of two members with one key the
/// later counts.
pub open spec fn members_at(
    s: Seq<char>,
    i: int,
    done: Seq<(Seq<char>, json::Json)>,
) -> Option<(Seq<(Seq<char>, json::Json)>, int)>
    decreases s.len() - i, 1int,
{
    if !(0 <= i <= s.len()) {
        None
    } else {
        proof {
            lemma_string_at(s, i);
        }
        match string_at(s, i) {
            None => None,
            Some((key, j)) => {
                proof {
                    lemma_after_space(s, j);
                }
                let colon = after_space(s, j);
                if colon < s.len() && s[colon] == ':' {
                    match value_at(s, colon + 1) {
                        Some((v, k)) => if colon < k <= s.len() {
                            proof {
                                lemma_after_space(s, k);
                            }
                            let m = json::with_member(done, key, v);
                            let e = after_space(s, k);
                            if e < s.len() && s[e] == '}' {
                                Some((m, e + 1))
                            } else if e < s.len() && s[e] == ',' {
                                members_at(s, e + 1, m)
                            } else {
                                None
                            }
                        } else {
                            None
                        },
                        None => None,
                    }
                } else {
                    None
                }
            },
        }
    }
}

/// The items of an array from `i` on, behind those read before (`done`), and
/// the place behind the closing bracket.
pub open spec fn items_at(s: Seq<char>, i: int, done: Seq<json::Json>) -> Option<
    (Seq<json::Json>, int),
>
    decreases s.len() - i, 1int,
{
    if !(0 <= i <= s.len()) {
        None
    } else {
        match value_at(s, i) {
            Some((v, k)) => if i <= k <= s.len() {
                proof {
                    lemma_after_space(s, k);
                }
                let m = done.push(v);
                let e = after_space(s, k);
                if e < s.len() && s[e] == ']' {
                    Some((m, e + 1))
                } else if e < s.len() && s[e] == ',' {
                    items_at(s, e + 1, m)
                } else {
                    None
                }
            } else {
                None
            },
            None => None,
        }
    }
}

/// The value that the whole text `s` stands for.
pub open spec fn parse(s: Seq<char>) -> Option<json::Json> {
    match value_at(s, 0) {
        Some((v, j)) => if after_space(s, j) == s.len() {
            Some(v)
        } else {
            None
        },
        None => None,
    }
}

// ---------------------------------------------------------------------------
// The executable parser

/// The first place from `i` on that holds no white space.
fn skip_space(s: &Vec<char>, i: usize) -> (r: usize)
    requires
        i <= s.len(),
    ensures
        r == after_space(s@, i as int),
        i <= r <= s.len(),
{
    let mut p: usize = i;
    while p < s.len() && (s[p] == ' ' || s[p] == '\t' || s[p] == '\r' || s[p] == '\n')
        invariant
            i <= p <= s.len(),
            after_space(s@, p as int) == after_space(s@, i as int),
        decreases s.len() - p,
    {
        p = p + 1;
    }
    p
}

/// Does `c` stand behind the white space at `i`? Then the place behind it.
fn expect(s: &Vec<char>, i: usize, c: char) -> (r: Option<usize>)
    requires
        i <= s.len(),
    ensures
        match r {
            Some(j) => {
                &&& j == after_space(s@, i as int) + 1
                &&& i < j <= s.len()
                &&& s@[j - 1] == c
            },
            None => {
                let p = after_space(s@, i as int);
                p >= s.len() || s@[p] != c
            },
        },
{
    let p = skip_space(s, i);
    if p < s.len() && s[p] == c {
        Some(p + 1)
    } else {
        None
    }
}

/// The value of the hexadecimal digit `c`.
pub fn hex_digit_value(c: char) -> (r: Option<u32>)
    ensures
        match r {
            Some(n) => hex_value(c) == Some(n as int) && n < 16,
            None => hex_value(c) is None,
        },
{
    if '0' <= c && c <= '9' {
        Some(c as u32 - 48)
    } else if 'a' <= c && c <= 'f' {
        Some(c as u32 - 87)
    } else if 'A' <= c && c <= 'F' {
        Some(c as u32 - 55)
    } else {
        None
    }
}

/// The number that the four characters from `i` on stand for.
fn read_hex4(s: &Vec<char>, i: usize) -> (r: Option<u32>)
    requires
        i <= s.len(),
    ensures
        match r {
            Some(n) => hex4_at(s@, i as int) == Some(n as int) && n <= 0xffff && i + 4 <= s.len(),
            None => hex4_at(s@, i as int) is None,
        },
{
    if s.len() - i < 4 {
        return None;
    }
    match (
        hex_digit_value(s[i]),
        hex_digit_value(s[i + 1]),
        hex_digit_value(s[i + 2]),
        hex_digit_value(s[i + 3]),
    ) {
        (Some(a), Some(b), Some(c), Some(d)) => Some(a * 4096 + b * 256 + c * 16 + d),
        _ => None,
    }
}

/// The character that the escape stands for whose letter is at `i`.
fn parse_escape(s: &Vec<char>, i: usize) -> (r: Option<(char, usize)>)
    requires
        i <= s.len(),
    ensures
        match r {
            Some((c, j)) => escape_at(s@, i as int) == Some((c, j as int)) && i < j <= s.len(),
            None => escape_at(s@, i as int) is None,
        },
{
    proof {
        reveal(escape_at);
    }
    if i >= s.len() {
        return None;
    }
    let c = s[i];
    if c == 'n' {
        Some(('\n', i + 1))
    } else if c == 't' {
        Some(('\t', i + 1))
    } else if c == 'r' {
        Some(('\r', i + 1))
    } else if c == 'b' {
        Some(('\u{8}', i + 1))
    } else if c == 'f' {
        Some(('\u{c}', i + 1))
    } else if c == '\\' || c == '"' || c == '/' {
        Some((c, i + 1))
    } else if c == 'u' {
        match read_hex4(s, i + 1) {
            None => None,
            Some(hi) => if 0xd800 <= hi && hi <= 0xdbff {
                if s.len() - i < 7 || s[i + 5] != '\\' || s[i + 6] != 'u' {
                    return None;
                }
                match read_hex4(s, i + 7) {
                    None => None,
                    Some(lo) => if 0xdc00 <= lo && lo <= 0xdfff {
                        let code: u32 = 0x10000 + (hi - 0xd800) * 1024 + (lo - 0xdc00);
                        match char::from_u32(code) {
                            Some(ch) => Some((ch, i + 11)),
                            None => None,
                        }
                    } else {
                        None
                    },
                }
            } else if 0xdc00 <= hi && hi <= 0xdfff {
                None
            } else {
                match char::from_u32(hi) {
                    Some(ch) => Some((ch, i + 5)),
                    None => None,
                }
            },
        }
    } else {
        None
    }
}

/// The string whose first character is at `i` (behind the opening quote).
fn parse_chars(s: &Vec<char>, i: usize) -> (r: Option<(String, usize)>)
    requires
        i <= s.len(),
    ensures
        match r {
            Some((t, j)) => chars_at(s@, i as int) == Some((t@, j as int)) && i < j <= s.len(),
            None => chars_at(s@, i as int) is None,
        },
{
    let mut out = String::new();
    let mut p: usize = i;
    while p < s.len()
        invariant
            i <= p <= s.len(),
            chars_at(s@, i as int) == (match chars_at(s@, p as int) {
                None => None,
                Some((rest, k)) => Some((out@ + rest, k)),
            }),
        decreases s.len() - p,
    {
        let c = s[p];
        let ghost before = out@;
        if c == '"' {
            assert(before + Seq::<char>::empty() =~= before);
            return Some((out, p + 1));
        }
        if c == '\\' {
            match parse_escape(s, p + 1) {
                None => {
                    return None;
                },
                Some((ch, j)) => {
                    out.push(ch);
                    proof {
                        if let Some((rest, k)) = chars_at(s@, j as int) {
                            assert(before + (seq![ch] + rest) =~= out@ + rest);
                        }
                    }
                    p = j;
                },
            }
        } else {
            if ' ' > c {
                return None;
            }
            out.push(c);
            proof {
                if let Some((rest, k)) = chars_at(s@, p + 1) {
                    assert(before + (seq![c] + rest) =~= out@ + rest);
                }
            }
            p = p + 1;
        }
    }
    None
}

/// The JSON string that starts behind the white space at `i`.
fn parse_string(s: &Vec<char>, i: usize) -> (r: Option<(String, usize)>)
    requires
        i <= s.len(),
    ensures
        match r {
            Some((t, j)) => string_at(s@, i as int) == Some((t@, j as int)) && i < j <= s.len(),
            None => string_at(s@, i as int) is None,
        },
{
    match expect(s, i, '"') {
        Some(p) => parse_chars(s, p),
        None => None,
    }
}

/// The number that starts at `i`.
fn parse_number(s: &Vec<char>, i: usize) -> (r: Option<(i64, usize)>)
    requires
        i < s.len(),
    ensures
        match r {
            Some((n, j)) => number_at(s@, i as int) == Some((n as int, j as int)) && i < j
                <= s.len(),
            None => number_at(s@, i as int) is None,
        },
{
    let negative = s[i] == '-';
    let first: usize = if negative {
        i + 1
    } else {
        i
    };
    let mut end: usize = first;
    while end < s.len() && ('0' <= s[end] && s[end] <= '9')
        invariant
            first <= end <= s.len(),
            after_digits(s@, end as int) == after_digits(s@, first as int),
        decreases s.len() - end,
    {
        end = end + 1;
    }
    if end == first {
        return None;
    }
    proof {
        lemma_after_digits(s@, first as int);
        let t = s@.subrange(first as int, end as int);
        text::lemma_prefix_value(t, t.len() as int);
        assert(t.take(t.len() as int) =~= t);
    }
    match text::digits_to_u64(s.as_slice(), first, end) {
        None => None,
        Some(m) => if negative {
            if m <= 0x8000_0000_0000_0000 {
                let n: i128 = -(m as i128);
                Some((n as i64, end))
            } else {
                None
            }
        } else if m <= 0x7fff_ffff_ffff_ffff {
            Some((m as i64, end))
        } else {
            None
        },
    }
}

/// Do the characters of `word` stand at `i`?
fn at_word(s: &Vec<char>, i: usize, word: &[char]) -> (r: bool)
    requires
        i <= s.len(),
    ensures
        r == word_at(s@, i as int, word@),
{
    if s.len() - i < word.len() {
        return false;
    }
    let mut k: usize = 0;
    while k < word.len()
        invariant
            k <= word.len(),
            i + word.len() <= s.len(),
            forall|j: int| 0 <= j < k ==> s@[i + j] == word@[j],
        decreases word.len() - k,
    {
        if s[i + k] != word[k] {
            assert(s@.subrange(i as int, i + word@.len())[k as int] != word@[k as int]);
            return false;
        }
        k = k + 1;
    }
    assert(s@.subrange(i as int, i + word@.len()) =~= word@);
    true
}

/// The value that starts behind the white space at `i`.
fn parse_value(s: &Vec<char>, i: usize) -> (r: Option<(JsonValue, usize)>)
    requires
        i <= s.len(),
    ensures
        match r {
            Some((v, j)) => value_at(s@, i as int) == Some((v@, j as int)) && i < j <= s.len(),
            None => value_at(s@, i as int) is None,
        },
    decreases s.len() - i, 0int,
{
    let p = skip_space(s, i);
    if p >= s.len() {
        return None;
    }
    let c = s[p];
    if c == '{' {
        match expect(s, p + 1, '}') {
            Some(q) => {
                let o = JsonObject::new();
                Some((JsonValue::Object(o), q))
            },
            None => match parse_members(s, p + 1) {
                Some((o, q)) => Some((JsonValue::Object(o), q)),
                None => None,
            },
        }
    } else if c == '[' {
        match expect(s, p + 1, ']') {
            Some(q) => {
                let r = JsonValue::Array(Vec::new());
                assert(r@->Arr_0 =~= seq![]);
                Some((r, q))
            },
            None => match parse_items(s, p + 1) {
                Some((items, q)) => {
                    let ghost m = items@.map_values(|x: JsonValue| x@);
                    let r = JsonValue::Array(items);
                    assert(r@->Arr_0 =~= m);
                    Some((r, q))
                },
                None => None,
            },
        }
    } else if c == '"' {
        match parse_chars(s, p + 1) {
            Some((t, j)) => Some((JsonValue::String(t), j)),
            None => None,
        }
    } else if at_word(s, p, &['t', 'r', 'u', 'e']) {
        Some((JsonValue::Bool(true), p + 4))
    } else if at_word(s, p, &['f', 'a', 'l', 's', 'e']) {
        Some((JsonValue::Bool(false), p + 5))
    } else if at_word(s, p, &['n', 'u', 'l', 'l']) {
        Some((JsonValue::Null, p + 4))
    } else if c == '-' || ('0' <= c && c <= '9') {
        match parse_number(s, p) {
            Some((n, j)) => Some((JsonValue::Number(n), j)),
            None => None,
        }
    } else {
        None
    }
}

/// The members of an object from `i` on.
fn parse_members(s: &Vec<char>, i: usize) -> (r: Option<(JsonObject, usize)>)
    requires
        i <= s.len(),
    ensures
        match r {
            Some((o, j)) => members_at(s@, i as int, seq![]) == Some((o@, j as int)) && i < j
                <= s.len(),
            None => members_at(s@, i as int, seq![]) is None,
        },
    decreases s.len() - i, 1int,
{
    let mut map = JsonObject::new();
    let mut p: usize = i;
    loop
        invariant
            i <= p <= s.len(),
            members_at(s@, p as int, map@) == members_at(s@, i as int, seq![]),
        decreases s.len() - p,
    {
        let (key, j) = match parse_string(s, p) {
            Some(x) => x,
            None => {
                return None;
            },
        };
        let colon = match expect(s, j, ':') {
            Some(x) => x,
            None => {
                return None;
            },
        };
        let (value, k) = match parse_value(s, colon) {
            Some(x) => x,
            None => {
                return None;
            },
        };
        map.insert(key, value);
        match expect(s, k, '}') {
            Some(e) => {
                return Some((map, e));
            },
            None => {},
        }
        match expect(s, k, ',') {
            Some(e) => {
                p = e;
            },
            None => {
                return None;
            },
        }
    }
}

/// The items of an array from `i` on.
fn parse_items(s: &Vec<char>, i: usize) -> (r: Option<(Vec<JsonValue>, usize)>)
    requires
        i <= s.len(),
    ensures
        match r {
            Some((items, j)) => items_at(s@, i as int, seq![]) == Some(
                (items@.map_values(|x: JsonValue| x@), j as int),
            ) && i < j <= s.len(),
            None => items_at(s@, i as int, seq![]) is None,
        },
    decreases s.len() - i, 1int,
{
    let mut items: Vec<JsonValue> = Vec::new();
    let mut p: usize = i;
    assert(items@.map_values(|x: JsonValue| x@) =~= seq![]);
    loop
        invariant
            i <= p <= s.len(),
            items_at(s@, p as int, items@.map_values(|x: JsonValue| x@)) == items_at(
                s@,
                i as int,
                seq![],
            ),
        decreases s.len() - p,
    {
        let (value, k) = match parse_value(s, p) {
            Some(x) => x,
            None => {
                return None;
            },
        };
        let ghost before = items@;
        items.push(value);
        assert(items@.map_values(|x: JsonValue| x@) =~= before.map_values(|x: JsonValue| x@).push(
            value@,
        ));
        match expect(s, k, ']') {
            Some(e) => {
                return Some((items, e));
            },
            None => {},
        }
        match expect(s, k, ',') {
            Some(e) => {
                p = e;
            },
            None => {
                return None;
            },
        }
    }
}

/// Parses a JSON text: one value, with nothing but white space around it.
pub fn parse_json_value(input: &str) -> (r: Option<JsonValue>)
    ensures
        match r {
            Some(v) => parse(input@) == Some(v@),
            None => parse(input@) is None,
        },
{
    let s = text::chars_of(input);
    match parse_value(&s, 0) {
        None => None,
        Some((v, j)) => {
            let end = skip_space(&s, j);
            if end == s.len() {
                Some(v)
            } else {
                None
            }
        },
    }
}

} // verus!
