//! Object ids: 160-bit names of Git objects, and their hexadecimal text.

use crate::json;
use crate::parser;
use crate::text;
use vstd::prelude::*;

verus! {

/// The id of a Git object: 160 bits, the first ones in `head`.
#[derive(Debug, Clone, Copy, PartialEq, Eq, Structural)]
pub struct Oid {
    pub head: u64,
    pub middle: u64,
    pub tail: u32,
}

/// `n` in `width` hexadecimal digits.
pub open spec fn hex_text(n: int, width: nat) -> Seq<char>
    decreases width,
{
    if width == 0 {
        seq![]
    } else {
        hex_text(n / 16, (width - 1) as nat).push(json::hex_char(n % 16))
    }
}

/// The number that the hexadecimal digits `s` stand for.
pub open spec fn hex_number(s: Seq<char>) -> int
    decreases s.len(),
{
    if s.len() == 0 {
        0
    } else {
        16 * hex_number(s.drop_last()) + match parser::hex_value(s.last()) {
            Some(d) => d,
            None => 0,
        }
    }
}

/// 16 to the power of `n`.
pub open spec fn pow16(n: nat) -> int
    decreases n,
{
    if n == 0 {
        1
    } else {
        16 * pow16((n - 1) as nat)
    }
}

/// Are all characters of `s` hexadecimal digits?
pub open spec fn all_hex(s: Seq<char>) -> bool {
    forall|i: int| 0 <= i < s.len() ==> parser::hex_value(#[trigger] s[i]) is Some
}

/// The text of an id: forty lower-case hexadecimal digits.
pub open spec fn oid_text(o: Oid) -> Seq<char> {
    hex_text(o.head as int, 16) + hex_text(o.middle as int, 16) + hex_text(o.tail as int, 8)
}

/// Can `s` be read as an id: one to forty hexadecimal digits?
pub open spec fn is_id_text(s: Seq<char>) -> bool {
    1 <= s.len() <= 40 && all_hex(s)
}

/// The lower-case form of a hexadecimal digit.
pub open spec fn lower_hex(c: char) -> char {
    match parser::hex_value(c) {
        Some(d) => json::hex_char(d),
        None => c,
    }
}

/// The forty digits that a shorter text stands for: lower case, with zeros behind.
pub open spec fn full_text(s: Seq<char>) -> Seq<char> {
    Seq::new(
        40,
        |i: int|
            if i < s.len() {
                lower_hex(s[i])
            } else {
                '0'
            },
    )
}

/// The id that `s` stands for.
pub open spec fn oid_of(s: Seq<char>) -> Option<Oid> {
    if is_id_text(s) {
        let t = full_text(s);
        Some(
            Oid {
                head: hex_number(t.subrange(0, 16)) as u64,
                middle: hex_number(t.subrange(16, 32)) as u64,
                tail: hex_number(t.subrange(32, 40)) as u32,
            },
        )
    } else {
        None
    }
}

proof fn lemma_hex_char(d: int)
    requires
        0 <= d < 16,
    ensures
        parser::hex_value(json::hex_char(d)) == Some(d),
{
}

proof fn lemma_hex_text(n: int, width: nat)
    requires
        0 <= n < pow16(width),
    ensures
        hex_text(n, width).len() == width,
        all_hex(hex_text(n, width)),
        hex_number(hex_text(n, width)) == n,
        forall|i: int| 0 <= i < width ==> lower_hex(#[trigger] hex_text(n, width)[i]) == hex_text(n, width)[i],
    decreases width,
{
    if width > 0 {
        let w = (width - 1) as nat;
        assert(n / 16 < pow16(w));
        lemma_hex_text(n / 16, w);
        let s = hex_text(n / 16, w);
        let c = json::hex_char(n % 16);
        lemma_hex_char(n % 16);
        assert(s.push(c).drop_last() =~= s);
        assert forall|i: int| 0 <= i < width implies parser::hex_value(
            #[trigger] s.push(c)[i],
        ) is Some && lower_hex(s.push(c)[i]) == s.push(c)[i] by {
            if i < s.len() {
                assert(s.push(c)[i] == s[i]);
            }
        }
    }
}

proof fn lemma_pow16()
    ensures
        pow16(16) == 0x1_0000_0000_0000_0000,
        pow16(8) == 0x1_0000_0000,
{
    reveal_with_fuel(pow16, 17);
}

proof fn lemma_hex_number_bound(s: Seq<char>)
    requires
        all_hex(s),
    ensures
        0 <= hex_number(s) < pow16(s.len()),
    decreases s.len(),
{
    if s.len() > 0 {
        let t = s.drop_last();
        assert forall|i: int| 0 <= i < t.len() implies parser::hex_value(#[trigger] t[i]) is Some by {
            assert(t[i] == s[i]);
        }
        assert(parser::hex_value(s[s.len() - 1]) is Some);
        lemma_hex_number_bound(t);
    }
}

/// An id reads back from its text.
pub proof fn law_oid_reads_back(o: Oid)
    ensures
        oid_text(o).len() == 40,
        oid_of(oid_text(o)) == Some(o),
{
    lemma_pow16();
    let a = hex_text(o.head as int, 16);
    let b = hex_text(o.middle as int, 16);
    let c = hex_text(o.tail as int, 8);
    lemma_hex_text(o.head as int, 16);
    lemma_hex_text(o.middle as int, 16);
    lemma_hex_text(o.tail as int, 8);
    let s = oid_text(o);
    assert forall|i: int| 0 <= i < 40 implies parser::hex_value(#[trigger] s[i]) is Some
        && lower_hex(s[i]) == s[i] by {
        if i < 16 {
            assert(s[i] == a[i]);
        } else if i < 32 {
            assert(s[i] == b[i - 16]);
        } else {
            assert(s[i] == c[i - 32]);
        }
    }
    let t = full_text(s);
    assert(t =~= s);
    assert(t.subrange(0, 16) =~= a);
    assert(t.subrange(16, 32) =~= b);
    assert(t.subrange(32, 40) =~= c);
}

/// Different ids have different texts.
pub proof fn law_oid_text_injective(a: Oid, b: Oid)
    requires
        oid_text(a) == oid_text(b),
    ensures
        a == b,
{
    law_oid_reads_back(a);
    law_oid_reads_back(b);
}

/// An id is read from one to forty hexadecimal digits of either case, and from nothing
/// else; the digits that are left out at the end are zeros.
pub proof fn law_id_is_its_digits(s: Seq<char>)
    ensures
        oid_of(s) is Some <==> 1 <= s.len() <= 40 && all_hex(s),
        oid_of(s) matches Some(o) ==> oid_text(o).len() == 40,
        oid_of(s) matches Some(o) ==> forall|i: int|
            0 <= i < s.len() ==> parser::hex_value(#[trigger] oid_text(o)[i])
                == parser::hex_value(s[i]),
        oid_of(s) matches Some(o) ==> forall|i: int|
            s.len() <= i < 40 ==> #[trigger] oid_text(o)[i] == '0',
        oid_of(s) matches Some(o) ==> oid_of(oid_text(o)) == Some(o),
{
    if oid_of(s) is Some {
        let o = oid_of(s).unwrap();
        let t = full_text(s);
        law_oid_reads_back(o);
        assert forall|i: int| 0 <= i < 40 implies parser::hex_value(#[trigger] t[i]) is Some
            && lower_hex(t[i]) == t[i] && (i < s.len() ==> parser::hex_value(t[i])
            == parser::hex_value(s[i])) by {
            if i < s.len() {
                assert(parser::hex_value(s[i]) is Some);
            }
        }
        lemma_pow16();
        lemma_written_again(t.subrange(0, 16));
        lemma_written_again(t.subrange(16, 32));
        lemma_written_again(t.subrange(32, 40));
        lemma_hex_number_bound(t.subrange(0, 16));
        lemma_hex_number_bound(t.subrange(16, 32));
        lemma_hex_number_bound(t.subrange(32, 40));
        assert(oid_text(o) =~= t);
    }
}

/// Digits in lower case are written again as they were read.
proof fn lemma_written_again(s: Seq<char>)
    requires
        all_hex(s),
        forall|i: int| 0 <= i < s.len() ==> lower_hex(#[trigger] s[i]) == s[i],
    ensures
        hex_text(hex_number(s), s.len()) == s,
    decreases s.len(),
{
    if s.len() > 0 {
        let t = s.drop_last();
        assert forall|i: int| 0 <= i < t.len() implies parser::hex_value(#[trigger] t[i]) is Some
            && lower_hex(t[i]) == t[i] by {
            assert(t[i] == s[i]);
        }
        lemma_written_again(t);
        lemma_hex_number_bound(t);
        let c = s[s.len() - 1];
        let d = parser::hex_value(c).unwrap();
        assert(lower_hex(c) == c);
        let n = hex_number(s);
        assert(n == 16 * hex_number(t) + d);
        assert(0 <= d < 16);
        assert(n / 16 == hex_number(t) && n % 16 == d);
        assert(t.push(c) =~= s);
    } else {
        assert(s =~= seq![]);
    }
}

/// Appends `n` in `width` hexadecimal digits.
fn push_hex(out: &mut String, n: u64, width: usize)
    ensures
        final(out)@ == old(out)@ + hex_text(n as int, width as nat),
    decreases width,
{
    let ghost before = out@;
    if width > 0 {
        push_hex(out, n / 16, width - 1);
        let d: u8 = (n % 16) as u8;
        out.push(json::hex_digit(d));
    }
    assert(out@ =~= before + hex_text(n as int, width as nat));
}

/// `git2::Oid::from_str` reads one to forty hexadecimal digits and refuses every
/// other text. Missing digits count as zeros. Written out again, an id has forty
/// lower-case digits.
#[verifier::external_body]
fn read_oid(s: &str) -> (r: Option<String>)
    ensures
        match r {
            Some(t) => is_id_text(s@) && t@ == full_text(s@),
            None => !is_id_text(s@),
        },
{
    git2::Oid::from_str(s).ok().map(|o| o.to_string())
}

/// The number that the hexadecimal digits `s` stand for.
fn number_of(s: &[char]) -> (n: u64)
    requires
        all_hex(s@),
        s@.len() <= 16,
    ensures
        n == hex_number(s@),
{
    let mut n: u64 = 0;
    let mut i: usize = 0;
    assert(s@.take(0) =~= seq![]);
    while i < s.len()
        invariant
            i <= s@.len() <= 16,
            all_hex(s@),
            n == hex_number(s@.take(i as int)),
        decreases s@.len() - i,
    {
        let d = match parser::hex_digit_value(s[i]) {
            Some(d) => d,
            None => 0,
        };
        proof {
            let t = s@.take(i as int);
            assert(s@.take(i + 1).drop_last() =~= t);
            assert(parser::hex_value(s@[i as int]) is Some);
            assert forall|k: int| 0 <= k < t.len() implies parser::hex_value(#[trigger] t[k]) is Some by {
                assert(t[k] == s@[k]);
            }
            lemma_hex_number_bound(t);
            lemma_pow16_bound(t.len());
        }
        n = n * 16 + d as u64;
        i = i + 1;
    }
    assert(s@.take(i as int) =~= s@);
    n
}

proof fn lemma_pow16_bound(n: nat)
    requires
        n <= 15,
    ensures
        pow16(n) <= 0x1000_0000_0000_0000,
{
    reveal_with_fuel(pow16, 17);
}

impl Oid {
    /// The text: forty lower-case hexadecimal digits.
    pub fn to_hex(self) -> (r: String)
        ensures
            r@ == oid_text(self),
    {
        let mut out = String::new();
        push_hex(&mut out, self.head, 16);
        push_hex(&mut out, self.middle, 16);
        push_hex(&mut out, self.tail as u64, 8);
        assert(out@ =~= oid_text(self));
        out
    }

    /// The id that `s` stands for, where it is one to forty hexadecimal digits.
    pub fn from_hex(s: &str) -> (r: Option<Oid>)
        ensures
            r == oid_of(s@),
    {
        match read_oid(s) {
            None => None,
            Some(t) => {
                let v = text::chars_of(t.as_str());
                proof {
                    assert forall|i: int| 0 <= i < 40 implies parser::hex_value(
                        #[trigger] full_text(s@)[i],
                    ) is Some by {
                        if i < s@.len() {
                            assert(parser::hex_value(s@[i]) is Some);
                        }
                    }
                    lemma_pow16();
                    let t = full_text(s@);
                    lemma_hex_number_bound(t.subrange(32, 40));
                }
                let head = number_of(text::part(v.as_slice(), 0, 16));
                let middle = number_of(text::part(v.as_slice(), 16, 32));
                let tail = number_of(text::part(v.as_slice(), 32, 40));
                Some(Oid { head, middle, tail: tail as u32 })
            },
        }
    }
}

} // verus!
