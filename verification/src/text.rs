//! Text: strings as sequences of characters, and the operations on them that
//! the rest of the library is built from.

use vstd::prelude::*;

verus! {

/// `String::push` appends the given character to the end of the string.
pub assume_specification[ std::string::String::push ](s: &mut std::string::String, c: char)
    ensures
        final(s)@ == old(s)@.push(c),
;

/// The characters of `s`.
pub fn chars_of(s: &str) -> (v: Vec<char>)
    ensures
        v@ == s@,
{
    let mut v: Vec<char> = Vec::new();
    for c in it: s.chars()
        invariant
            v@ == it.seq().take(it.index()),
            it.seq() == s@,
    {
        v.push(c);
    }
    v
}

/// The string made of the characters `v[from..to]`.
pub fn string_of(v: &[char], from: usize, to: usize) -> (s: String)
    requires
        from <= to <= v.len(),
    ensures
        s@ == v@.subrange(from as int, to as int),
{
    let mut s = String::new();
    let mut i: usize = from;
    while i < to
        invariant
            from <= i <= to <= v.len(),
            s@ == v@.subrange(from as int, i as int),
        decreases to - i,
    {
        s.push(v[i]);
        i = i + 1;
    }
    s
}

/// Do two strings hold the same characters?
pub fn same(a: &str, b: &str) -> (r: bool)
    ensures
        r == (a@ == b@),
{
    a.to_owned() == b.to_owned()
}

/// `a` with `b` behind it.
pub fn join2(a: &str, b: &str) -> (r: String)
    ensures
        r@ == a@ + b@,
{
    let mut s = a.to_owned();
    s.append(b);
    s
}

// ---------------------------------------------------------------------------
// Order

/// `a` comes before `b` in the order of a dictionary, character by character.
pub open spec fn precedes(a: Seq<char>, b: Seq<char>) -> bool
    decreases a.len(),
{
    if b.len() == 0 {
        false
    } else if a.len() == 0 {
        true
    } else if a[0] != b[0] {
        a[0] < b[0]
    } else {
        precedes(a.skip(1), b.skip(1))
    }
}

/// No text comes before itself.
pub proof fn law_order_irreflexive(a: Seq<char>)
    ensures
        !precedes(a, a),
    decreases a.len(),
{
    if a.len() > 0 {
        law_order_irreflexive(a.skip(1));
    }
}

/// The order is transitive.
pub proof fn law_order_transitive(a: Seq<char>, b: Seq<char>, c: Seq<char>)
    requires
        precedes(a, b),
        precedes(b, c),
    ensures
        precedes(a, c),
    decreases a.len(),
{
    if a.len() > 0 && a[0] == b[0] && b[0] == c[0] {
        law_order_transitive(a.skip(1), b.skip(1), c.skip(1));
    }
}

/// Of two different texts one comes before the other.
pub proof fn law_order_total(a: Seq<char>, b: Seq<char>)
    ensures
        a == b || precedes(a, b) || precedes(b, a),
    decreases a.len(),
{
    if a.len() > 0 && b.len() > 0 && a[0] == b[0] {
        law_order_total(a.skip(1), b.skip(1));
        if a.skip(1) == b.skip(1) {
            assert forall|i: int| 0 <= i < a.len() implies a[i] == b[i] by {
                if i > 0 {
                    assert(a[i] == a.skip(1)[i - 1]);
                    assert(b[i] == b.skip(1)[i - 1]);
                }
            }
            assert(a.len() == a.skip(1).len() + 1);
            assert(b.len() == b.skip(1).len() + 1);
            assert(a =~= b);
        }
    } else if a.len() == 0 && b.len() == 0 {
        assert(a =~= b);
    }
}

/// Does `a` come before `b`?
pub fn comes_before(a: &str, b: &str) -> (r: bool)
    ensures
        r == precedes(a@, b@),
{
    let x = chars_of(a);
    let y = chars_of(b);
    let mut i: usize = 0;
    assert(x@.skip(0) =~= x@);
    assert(y@.skip(0) =~= y@);
    while i < x.len() && i < y.len() && x[i] == y[i]
        invariant
            i <= x.len(),
            i <= y.len(),
            precedes(x@.skip(i as int), y@.skip(i as int)) == precedes(x@, y@),
        decreases x.len() - i,
    {
        assert(x@.skip(i as int).skip(1) =~= x@.skip(i + 1));
        assert(y@.skip(i as int).skip(1) =~= y@.skip(i + 1));
        i = i + 1;
    }
    if i >= y.len() {
        false
    } else if i >= x.len() {
        true
    } else {
        x[i] < y[i]
    }
}

// ---------------------------------------------------------------------------
// Decimal numbers

/// The character for the decimal digit `d`.
pub open spec fn digit_char(d: int) -> char {
    (d + 48) as char
}

/// Is `c` one of `0` to `9`?
pub open spec fn is_digit(c: char) -> bool {
    '0' <= c <= '9'
}

/// The number that the digit `c` stands for.
pub open spec fn digit_value(c: char) -> int {
    c as int - 48
}

/// `n` in decimal, without leading zeros.
pub open spec fn decimal(n: nat) -> Seq<char>
    decreases n,
{
    if n < 10 {
        seq![digit_char(n as int)]
    } else {
        decimal(n / 10).push(digit_char((n % 10) as int))
    }
}

/// `n` in decimal, with a minus sign where it is below zero.
pub open spec fn signed_decimal(n: int) -> Seq<char> {
    if n < 0 {
        seq!['-'] + decimal((-n) as nat)
    } else {
        decimal(n as nat)
    }
}

/// Are all characters of `s` decimal digits?
pub open spec fn all_digits(s: Seq<char>) -> bool {
    forall|i: int| 0 <= i < s.len() ==> is_digit(#[trigger] s[i])
}

/// The number that the decimal digits `s` stand for.
pub open spec fn digits_value(s: Seq<char>) -> int
    decreases s.len(),
{
    if s.len() == 0 {
        0
    } else {
        10 * digits_value(s.drop_last()) + digit_value(s.last())
    }
}

/// Reading a decimal gives back the number that was written.
pub proof fn law_decimal_reads_back(n: nat)
    ensures
        decimal(n).len() >= 1,
        all_digits(decimal(n)),
        digits_value(decimal(n)) == n,
    decreases n,
{
    reveal_with_fuel(digits_value, 2);
    if n < 10 {
        let s = seq![digit_char(n as int)];
        assert(s.drop_last() =~= Seq::<char>::empty());
        assert(s.last() == digit_char(n as int));
    } else {
        law_decimal_reads_back(n / 10);
        let s = decimal(n / 10);
        let c = digit_char((n % 10) as int);
        assert(s.push(c).drop_last() =~= s);
        assert(s.push(c).last() == c);
        assert forall|i: int| 0 <= i < s.push(c).len() implies is_digit(#[trigger] s.push(c)[i]) by {
            if i < s.len() {
                assert(s.push(c)[i] == s[i]);
            }
        }
    }
}

/// Different numbers are written differently.
pub proof fn law_decimal_injective(a: nat, b: nat)
    requires
        decimal(a) == decimal(b),
    ensures
        a == b,
{
    law_decimal_reads_back(a);
    law_decimal_reads_back(b);
}

/// What the digits before a cut stand for is no more than what all stand for.
pub(crate) proof fn lemma_prefix_value(s: Seq<char>, i: int)
    requires
        all_digits(s),
        0 <= i <= s.len(),
    ensures
        0 <= digits_value(s.take(i)) <= digits_value(s),
    decreases s.len(),
{
    if s.len() == 0 {
        assert(s.take(i) =~= s);
    } else {
        let t = s.drop_last();
        assert forall|k: int| 0 <= k < t.len() implies is_digit(#[trigger] t[k]) by {
            assert(t[k] == s[k]);
        }
        assert(is_digit(s[s.len() - 1]));
        lemma_prefix_value(t, t.len() as int);
        assert(t.take(t.len() as int) =~= t);
        if i == s.len() {
            assert(s.take(i) =~= s);
        } else {
            lemma_prefix_value(t, i);
            assert(t.take(i) =~= s.take(i));
        }
    }
}

/// The character for a digit below ten.
fn digit(d: u64) -> (c: char)
    requires
        d < 10,
    ensures
        c == digit_char(d as int),
{
    ((d as u8) + 48u8) as char
}

/// `n` in decimal.
pub fn decimal_string(n: u64) -> (s: String)
    ensures
        s@ == decimal(n as nat),
    decreases n,
{
    let mut s = if n < 10 {
        String::new()
    } else {
        decimal_string(n / 10)
    };
    s.push(digit(n % 10));
    assert(n < 10 ==> s@ =~= decimal(n as nat));
    s
}

/// `n` in decimal, with a minus sign where it is below zero.
pub fn signed_decimal_string(n: i64) -> (s: String)
    ensures
        s@ == signed_decimal(n as int),
{
    if n < 0 {
        let m: i128 = -(n as i128);
        let mut s = String::new();
        s.push('-');
        s.append(decimal_string(m as u64).as_str());
        assert(s@ =~= signed_decimal(n as int));
        s
    } else {
        decimal_string(n as u64)
    }
}

/// The number that the digits `v[from..to]` stand for, where it fits in 64 bits.
pub fn digits_to_u64(v: &[char], from: usize, to: usize) -> (r: Option<u64>)
    requires
        from <= to <= v.len(),
        all_digits(v@.subrange(from as int, to as int)),
    ensures
        match r {
            Some(n) => n == digits_value(v@.subrange(from as int, to as int)),
            None => digits_value(v@.subrange(from as int, to as int)) > u64::MAX,
        },
{
    let ghost s = v@.subrange(from as int, to as int);
    let mut n: u64 = 0;
    let mut i: usize = from;
    assert(s.take(0) =~= Seq::<char>::empty());
    while i < to
        invariant
            from <= i <= to <= v.len(),
            s == v@.subrange(from as int, to as int),
            all_digits(s),
            n == digits_value(s.take(i - from)),
        decreases to - i,
    {
        let c = v[i];
        proof {
            let k = i - from;
            assert(s[k] == c);
            assert(is_digit(s[k]));
            assert(s.take(k + 1).drop_last() =~= s.take(k));
            assert(s.take(k + 1).last() == c);
            lemma_prefix_value(s, k + 1);
        }
        let d: u64 = (c as u32 - 48) as u64;
        match n.checked_mul(10) {
            None => { return None; },
            Some(m) => {
                match m.checked_add(d) {
                    None => { return None; },
                    Some(k) => { n = k; },
                }
            },
        }
        i = i + 1;
    }
    assert(s.take(to - from) =~= s);
    Some(n)
}

// ---------------------------------------------------------------------------
// White space

/// Is `c` white space: has it the Unicode property `White_Space`?
pub open spec fn is_white(c: char) -> bool {
    let n = c as int;
    ||| 0x9 <= n <= 0xd
    ||| n == 0x20
    ||| n == 0x85
    ||| n == 0xa0
    ||| n == 0x1680
    ||| 0x2000 <= n <= 0x200a
    ||| n == 0x2028
    ||| n == 0x2029
    ||| n == 0x202f
    ||| n == 0x205f
    ||| n == 0x3000
}

/// `s` without the white space at its start.
pub open spec fn trimmed_start(s: Seq<char>) -> Seq<char>
    decreases s.len(),
{
    if s.len() > 0 && is_white(s[0]) {
        trimmed_start(s.skip(1))
    } else {
        s
    }
}

/// `s` without the white space at its end.
pub open spec fn trimmed_end(s: Seq<char>) -> Seq<char>
    decreases s.len(),
{
    if s.len() > 0 && is_white(s.last()) {
        trimmed_end(s.drop_last())
    } else {
        s
    }
}

/// `s` without the white space at either end.
pub open spec fn trimmed(s: Seq<char>) -> Seq<char> {
    trimmed_end(trimmed_start(s))
}

/// Does `s` hold nothing but white space?
pub open spec fn all_white(s: Seq<char>) -> bool {
    forall|i: int| 0 <= i < s.len() ==> is_white(#[trigger] s[i])
}

proof fn lemma_white_before(before: Seq<char>, s: Seq<char>)
    requires
        all_white(before),
        s.len() > 0,
        !is_white(s[0]),
    ensures
        trimmed_start(before + s) == s,
    decreases before.len(),
{
    let t = before + s;
    if before.len() == 0 {
        assert(t =~= s);
    } else {
        assert(t[0] == before[0]);
        assert(t.skip(1) =~= before.skip(1) + s);
        lemma_white_before(before.skip(1), s);
    }
}

proof fn lemma_white_after(s: Seq<char>, after: Seq<char>)
    requires
        all_white(after),
        s.len() > 0,
        !is_white(s.last()),
    ensures
        trimmed_end(s + after) == s,
    decreases after.len(),
{
    let t = s + after;
    if after.len() == 0 {
        assert(t =~= s);
    } else {
        assert(t.last() == after.last());
        assert(t.drop_last() =~= s + after.drop_last());
        lemma_white_after(s, after.drop_last());
    }
}

/// Among the first 256 characters, white space is the blank, the tab and the line breaks,
/// the next-line control and the no-break space; letters, digits and signs are not.
pub proof fn law_white_space(c: char)
    requires
        (c as int) < 0x100,
    ensures
        is_white(c) <==> c == ' ' || c == '\t' || c == '\n' || c == '\u{b}' || c == '\u{c}' || c
            == '\r' || c == '\u{85}' || c == '\u{a0}',
{
}

/// White space around a text that neither starts nor ends with any is trimmed away,
/// and nothing else.
pub proof fn law_trimmed_of_padded(before: Seq<char>, s: Seq<char>, after: Seq<char>)
    requires
        all_white(before),
        all_white(after),
        s.len() > 0,
        !is_white(s[0]),
        !is_white(s.last()),
    ensures
        trimmed(before + s + after) == s,
{
    let t = s + after;
    assert(before + s + after =~= before + t);
    assert(t[0] == s[0]);
    lemma_white_before(before, t);
    lemma_white_after(s, after);
}

/// Is `c` white space?
pub fn is_whitespace(c: char) -> (r: bool)
    ensures
        r == is_white(c),
{
    let n: u32 = c as u32;
    (0x9 <= n && n <= 0xd) || n == 0x20 || n == 0x85 || n == 0xa0 || n == 0x1680 || (0x2000 <= n
        && n <= 0x200a) || n == 0x2028 || n == 0x2029 || n == 0x202f || n == 0x205f || n == 0x3000
}

/// The part of `s` from `from` up to `to`.
pub fn part(s: &[char], from: usize, to: usize) -> (r: &[char])
    requires
        from <= to <= s@.len(),
    ensures
        r@ == s@.subrange(from as int, to as int),
{
    vstd::slice::slice_subrange(s, from, to)
}

/// `s` without the white space at its start.
pub fn trim_start(s: &[char]) -> (r: &[char])
    ensures
        r@ == trimmed_start(s@),
{
    let mut i: usize = 0;
    assert(s@.skip(0) =~= s@);
    while i < s.len() && is_whitespace(s[i])
        invariant
            i <= s@.len(),
            trimmed_start(s@.skip(i as int)) == trimmed_start(s@),
        decreases s@.len() - i,
    {
        assert(s@.skip(i as int)[0] == s@[i as int]);
        assert(s@.skip(i as int).skip(1) =~= s@.skip(i + 1));
        i = i + 1;
    }
    assert(s@.subrange(i as int, s@.len() as int) =~= s@.skip(i as int));
    part(s, i, s.len())
}

/// `s` without the white space at its end.
pub fn trim_end(s: &[char]) -> (r: &[char])
    ensures
        r@ == trimmed_end(s@),
{
    let mut n: usize = s.len();
    assert(s@.take(n as int) =~= s@);
    while n > 0 && is_whitespace(s[n - 1])
        invariant
            n <= s@.len(),
            trimmed_end(s@.take(n as int)) == trimmed_end(s@),
        decreases n,
    {
        assert(s@.take(n as int).last() == s@[n - 1]);
        assert(s@.take(n as int).drop_last() =~= s@.take(n - 1));
        n = n - 1;
    }
    assert(s@.subrange(0, n as int) =~= s@.take(n as int));
    part(s, 0, n)
}

/// `s` without the white space at either end.
pub fn trim(s: &[char]) -> (r: &[char])
    ensures
        r@ == trimmed(s@),
{
    trim_end(trim_start(s))
}

// ---------------------------------------------------------------------------
// Searching

/// Does `s` begin with `p`?
pub open spec fn starts_with(s: Seq<char>, p: Seq<char>) -> bool {
    p.len() <= s.len() && s.take(p.len() as int) == p
}

/// Does `s` end with `p`?
pub open spec fn ends_with(s: Seq<char>, p: Seq<char>) -> bool {
    p.len() <= s.len() && s.skip(s.len() - p.len()) == p
}

/// The first place from `i` on that holds `c`, or else the end.
pub open spec fn find(s: Seq<char>, c: char, i: int) -> int
    decreases s.len() - i,
{
    if 0 <= i < s.len() && s[i] != c {
        find(s, c, i + 1)
    } else if i < s.len() {
        i
    } else {
        s.len() as int
    }
}

/// The lines of `s`. A line ends with a line feed, or with a carriage return and
/// a line feed; the last one may end with the text.
pub open spec fn lines(s: Seq<char>) -> Seq<Seq<char>>
    decreases s.len(),
{
    if s.len() == 0 {
        seq![]
    } else {
        let p = find(s, '\n', 0);
        if 0 <= p < s.len() {
            let line = s.take(p);
            let shown = if line.len() > 0 && line.last() == '\r' {
                line.drop_last()
            } else {
                line
            };
            seq![shown] + lines(s.skip(p + 1))
        } else {
            seq![s]
        }
    }
}

/// Do the characters `s` make up the text `t`?
pub fn is_text(s: &[char], t: &str) -> (r: bool)
    ensures
        r == (s@ == t@),
{
    let v = chars_of(t);
    same_chars(s, v.as_slice())
}

/// Are `a` and `b` the same characters?
pub fn same_chars(a: &[char], b: &[char]) -> (r: bool)
    ensures
        r == (a@ == b@),
{
    if a.len() != b.len() {
        return false;
    }
    let mut i: usize = 0;
    while i < a.len()
        invariant
            a@.len() == b@.len(),
            i <= a@.len(),
            forall|k: int| 0 <= k < i ==> a@[k] == b@[k],
        decreases a@.len() - i,
    {
        if a[i] != b[i] {
            return false;
        }
        i = i + 1;
    }
    assert(a@ =~= b@);
    true
}

/// Does `s` begin with the text `p`?
pub fn has_prefix(s: &[char], p: &str) -> (r: bool)
    ensures
        r == starts_with(s@, p@),
{
    let v = chars_of(p);
    if v.len() > s.len() {
        return false;
    }
    assert(s@.subrange(0, v@.len() as int) =~= s@.take(v@.len() as int));
    same_chars(part(s, 0, v.len()), v.as_slice())
}

/// Does `s` end with the text `p`?
pub fn has_suffix(s: &[char], p: &str) -> (r: bool)
    ensures
        r == ends_with(s@, p@),
{
    let v = chars_of(p);
    if v.len() > s.len() {
        return false;
    }
    let from: usize = s.len() - v.len();
    assert(s@.subrange(from as int, s@.len() as int) =~= s@.skip(from as int));
    same_chars(part(s, from, s.len()), v.as_slice())
}

/// The first place from `i` on that holds `c`, or else the end.
pub fn find_char(s: &[char], c: char, i: usize) -> (r: usize)
    requires
        i <= s@.len(),
    ensures
        r == find(s@, c, i as int),
        i <= r <= s@.len(),
        r < s@.len() ==> s@[r as int] == c,
        forall|k: int| i <= k < r ==> s@[k] != c,
{
    let mut p: usize = i;
    while p < s.len() && s[p] != c
        invariant
            i <= p <= s@.len(),
            find(s@, c, p as int) == find(s@, c, i as int),
            forall|k: int| i <= k < p ==> s@[k] != c,
        decreases s@.len() - p,
    {
        p = p + 1;
    }
    p
}

/// What the pieces of a list of character vectors hold.
pub open spec fn pieces(v: Seq<Vec<char>>) -> Seq<Seq<char>> {
    v.map_values(|x: Vec<char>| x@)
}

/// A copy of `s`.
pub fn copy(s: &[char]) -> (r: Vec<char>)
    ensures
        r@ == s@,
{
    let mut r: Vec<char> = Vec::new();
    let mut i: usize = 0;
    while i < s.len()
        invariant
            i <= s@.len(),
            r@ == s@.take(i as int),
        decreases s@.len() - i,
    {
        r.push(s[i]);
        i = i + 1;
        assert(s@.take(i as int) =~= s@.take(i - 1).push(s@[i - 1]));
    }
    assert(s@.take(i as int) =~= s@);
    r
}

/// The lines of `s`.
pub fn split_lines(s: &[char]) -> (r: Vec<Vec<char>>)
    ensures
        pieces(r@) == lines(s@),
{
    let mut out: Vec<Vec<char>> = Vec::new();
    let mut from: usize = 0;
    assert(s@.skip(0) =~= s@);
    assert(pieces(out@) + lines(s@) =~= lines(s@));
    while from < s.len()
        invariant
            from <= s@.len(),
            pieces(out@) + lines(s@.skip(from as int)) == lines(s@),
        decreases s@.len() - from,
    {
        let ghost rest = s@.skip(from as int);
        let ghost before = pieces(out@);
        let p = find_char(s, '\n', from);
        proof {
            lemma_find_skip(s@, '\n', from as int, 0);
            assert(find(rest, '\n', 0) == p - from);
        }
        if p < s.len() {
            let end: usize = if p > from && s[p - 1] == '\r' {
                p - 1
            } else {
                p
            };
            let line = copy(part(s, from, end));
            proof {
                assert(rest.take(p - from) =~= s@.subrange(from as int, p as int));
                assert(rest.take(p - from).drop_last() =~= s@.subrange(from as int, p - 1) || p
                    == from);
                assert(rest.skip(p - from + 1) =~= s@.skip(p + 1));
            }
            let ghost shown = line@;
            out.push(line);
            proof {
                assert(pieces(out@) =~= before.push(shown));
                assert(lines(rest) == seq![shown] + lines(s@.skip(p + 1)));
                assert(pieces(out@) + lines(s@.skip(p + 1)) =~= before + lines(rest));
            }
            from = p + 1;
        } else {
            let line = copy(part(s, from, p));
            assert(line@ =~= rest);
            out.push(line);
            proof {
                assert(pieces(out@) =~= before.push(rest));
                assert(lines(rest) == seq![rest]);
                assert(pieces(out@) =~= before + lines(rest));
                assert(s@.skip(s@.len() as int) =~= seq![]);
            }
            from = s.len();
            assert(pieces(out@) + lines(s@.skip(from as int)) =~= pieces(out@));
        }
    }
    assert(s@.skip(from as int) =~= seq![]);
    assert(pieces(out@) + lines(s@.skip(from as int)) =~= pieces(out@));
    out
}

proof fn lemma_find_skip(s: Seq<char>, c: char, from: int, i: int)
    requires
        0 <= from <= s.len(),
        0 <= i <= s.len() - from,
    ensures
        find(s.skip(from), c, i) + from == find(s, c, from + i),
    decreases s.len() - from - i,
{
    if i < s.len() - from {
        assert(s.skip(from)[i] == s[from + i]);
        if s[from + i] != c {
            lemma_find_skip(s, c, from, i + 1);
        }
    }
}

/// The string without the white space at its end.
pub fn trim_end_string(s: &str) -> (r: String)
    ensures
        r@ == trimmed_end(s@),
{
    let v = chars_of(s);
    let t = trim_end(v.as_slice());
    assert(t@.subrange(0, t@.len() as int) =~= t@);
    string_of(t, 0, t.len())
}

/// The string without the white space at either end.
pub fn trim_string(s: &str) -> (r: String)
    ensures
        r@ == trimmed(s@),
{
    let v = chars_of(s);
    let t = trim(v.as_slice());
    assert(t@.subrange(0, t@.len() as int) =~= t@);
    string_of(t, 0, t.len())
}

/// The texts one after the other, with `sep` between them.
pub open spec fn joined(v: Seq<Seq<char>>, sep: Seq<char>) -> Seq<char>
    decreases v.len(),
{
    if v.len() == 0 {
        seq![]
    } else if v.len() == 1 {
        v[0]
    } else {
        joined(v.drop_last(), sep) + sep + v.last()
    }
}

/// The strings from the `from`-th on, with `sep` between them.
pub fn join_from(v: &[String], from: usize, sep: &str) -> (r: String)
    requires
        from <= v@.len(),
    ensures
        r@ == joined(crate::event::texts(v@).skip(from as int), sep@),
{
    let ghost all = crate::event::texts(v@).skip(from as int);
    let mut s = String::new();
    let mut i: usize = from;
    assert(all.take(0) =~= seq![]);
    assert(s@ =~= joined(all.take(0), sep@));
    while i < v.len()
        invariant
            from <= i <= v@.len(),
            all == crate::event::texts(v@).skip(from as int),
            s@ == joined(all.take(i - from), sep@),
        decreases v@.len() - i,
    {
        let ghost before = s@;
        let ghost k = i - from;
        if i > from {
            s.append(sep);
        }
        s.append(v[i].as_str());
        proof {
            assert(all.take(k + 1).drop_last() =~= all.take(k));
            assert(all.take(k + 1).last() == v@[i as int]@);
            assert(s@ =~= joined(all.take(k + 1), sep@));
        }
        i = i + 1;
    }
    assert(all.take(i - from) =~= all);
    s
}

// ---------------------------------------------------------------------------
// Bytes

/// The text that `String::from_utf8_lossy` makes of the bytes.
pub uninterp spec fn utf8_lossy(bytes: Seq<u8>) -> Seq<char>;

/// `String::from_utf8_lossy` decodes bytes as UTF-8 and puts a replacement
/// character in place of what is no UTF-8. Bytes that are UTF-8 throughout are
/// decoded as they are; of other bytes it is not stated how many replacement
/// characters stand for them, and where.
#[verifier::external_body]
pub(crate) fn from_utf8_lossy(bytes: &[u8]) -> (r: String)
    ensures
        r@ == utf8_lossy(bytes@),
        vstd::utf8::valid_utf8(bytes@) ==> r@ == vstd::utf8::decode_utf8(bytes@),
{
    String::from_utf8_lossy(bytes).into_owned()
}

/// `str::from_utf8` gives the text that the bytes encode, and refuses bytes that
/// are no UTF-8.
#[verifier::external_body]
pub(crate) fn from_utf8(bytes: &[u8]) -> (r: Option<String>)
    ensures
        match r {
            Some(s) => vstd::utf8::valid_utf8(bytes@) && s@ == vstd::utf8::decode_utf8(bytes@),
            None => !vstd::utf8::valid_utf8(bytes@),
        },
{
    std::str::from_utf8(bytes).ok().map(|s| s.to_string())
}

/// The first place from `i` on where `key` stands.
pub open spec fn find_text(s: Seq<char>, key: Seq<char>, i: int) -> Option<int>
    decreases s.len() + 1 - i,
{
    if !(0 <= i && i + key.len() <= s.len()) {
        None
    } else if s.subrange(i, i + key.len()) == key {
        Some(i)
    } else {
        find_text(s, key, i + 1)
    }
}

/// The first place where `key` stands in `s`.
pub fn position_of(s: &[char], key: &[char]) -> (r: Option<usize>)
    ensures
        match r {
            Some(p) => find_text(s@, key@, 0) == Some(p as int) && p + key@.len() <= s@.len(),
            None => find_text(s@, key@, 0) is None,
        },
{
    if key.len() > s.len() {
        return None;
    }
    let last: usize = s.len() - key.len();
    let mut i: usize = 0;
    while i <= last
        invariant
            last == s@.len() - key@.len(),
            s@.len() <= usize::MAX,
            i <= last + 1,
            find_text(s@, key@, i as int) == find_text(s@, key@, 0),
        decreases last + 1 - i,
    {
        if same_chars(part(s, i, i + key.len()), key) {
            return Some(i);
        }
        if i == last {
            assert(find_text(s@, key@, i + 1) is None);
            return None;
        }
        i = i + 1;
    }
    None
}

} // verus!
