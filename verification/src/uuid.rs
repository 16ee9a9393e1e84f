//! Version-4 UUIDs: their textual shape, and ids made from a seed.

use crate::json;
use crate::parser;
use crate::text;
use vstd::prelude::*;

verus! {

/// Does a UUID have a hyphen at `i`?
pub open spec fn hyphen_at(i: int) -> bool {
    i == 8 || i == 13 || i == 18 || i == 23
}

/// Has `s` the textual shape of a version-4 UUID: groups of 8, 4, 4, 4 and 12
/// hexadecimal digits, the version 4, and the variant 8, 9, a or b?
pub open spec fn uuid_v4_shape(s: Seq<char>) -> bool {
    &&& s.len() == 36
    &&& forall|i: int|
        0 <= i < 36 ==> if hyphen_at(i) {
            #[trigger] s[i] == '-'
        } else {
            parser::hex_value(s[i]) is Some
        }
    &&& s[14] == '4'
    &&& s[19] == '8' || s[19] == '9' || s[19] == 'a' || s[19] == 'b'
}

/// Is `c` a hexadecimal digit?
fn is_hex(c: char) -> (r: bool)
    ensures
        r == (parser::hex_value(c) is Some),
{
    ('0' <= c && c <= '9') || ('a' <= c && c <= 'f') || ('A' <= c && c <= 'F')
}

/// Has `input` the textual shape of a version-4 UUID?
pub fn is_uuid_v4(input: &str) -> (r: bool)
    ensures
        r == uuid_v4_shape(input@),
{
    let s = text::chars_of(input);
    if s.len() != 36 {
        return false;
    }
    let mut i: usize = 0;
    while i < 36
        invariant
            s@ == input@,
            s.len() == 36,
            i <= 36,
            forall|k: int|
                0 <= k < i ==> if hyphen_at(k) {
                    #[trigger] s@[k] == '-'
                } else {
                    parser::hex_value(s@[k]) is Some
                },
        decreases 36 - i,
    {
        let c = s[i];
        let fits = if i == 8 || i == 13 || i == 18 || i == 23 {
            c == '-'
        } else {
            is_hex(c)
        };
        if !fits {
            assert(s@[i as int] == c);
            return false;
        }
        i = i + 1;
    }
    s[14] == '4' && (s[19] == '8' || s[19] == '9' || s[19] == 'a' || s[19] == 'b')
}

// ---------------------------------------------------------------------------
// Ids from a seed

/// One step of the xorshift generator.
pub open spec fn xorshift(x: u64) -> u64 {
    let a = x ^ (x << 13u64);
    let b = a ^ (a >> 7u64);
    b ^ (b << 17u64)
}

/// The state of the generator after `n` steps.
pub open spec fn generator_state(seed: u64, n: int) -> u64
    decreases n,
{
    if n <= 0 {
        seed | 1
    } else {
        xorshift(generator_state(seed, n - 1))
    }
}

/// The `i`-th byte of the id for `seed`, with version and variant in their places.
pub open spec fn id_byte(seed: u64, i: int) -> u8 {
    let raw = generator_state(seed, i + 1) as u8;
    if i == 6 {
        (raw & 0x0f) | 0x40
    } else if i == 8 {
        (raw & 0x3f) | 0x80
    } else {
        raw
    }
}

/// The first `n` bytes of the id for `seed`, in hexadecimal and in groups.
pub open spec fn id_text(seed: u64, n: int) -> Seq<char>
    decreases n,
{
    if n <= 0 {
        seq![]
    } else {
        let hyphen = if n == 5 || n == 7 || n == 9 || n == 11 {
            seq!['-']
        } else {
            seq![]
        };
        let b = id_byte(seed, n - 1) as int;
        id_text(seed, n - 1) + hyphen + seq![json::hex_char(b / 16), json::hex_char(b % 16)]
    }
}

/// The number of characters that the first `n` bytes of an id take.
spec fn width(n: int) -> int {
    2 * n + (if n >= 11 {
        4int
    } else if n >= 9 {
        3int
    } else if n >= 7 {
        2int
    } else if n >= 5 {
        1int
    } else {
        0int
    })
}

proof fn lemma_hex_char(d: int)
    requires
        0 <= d < 16,
    ensures
        parser::hex_value(json::hex_char(d)) == Some(d),
{
}

proof fn lemma_id_shape(seed: u64, n: int)
    requires
        0 <= n <= 16,
    ensures
        id_text(seed, n).len() == width(n),
        forall|i: int|
            0 <= i < width(n) ==> if hyphen_at(i) {
                #[trigger] id_text(seed, n)[i] == '-'
            } else {
                parser::hex_value(id_text(seed, n)[i]) is Some
            },
        n >= 7 ==> id_text(seed, n)[14] == '4',
        n >= 9 ==> {
            let c = id_text(seed, n)[19];
            c == '8' || c == '9' || c == 'a' || c == 'b'
        },
    decreases n,
{
    if n > 0 {
        lemma_id_shape(seed, n - 1);
        let b = id_byte(seed, n - 1);
        let before = id_text(seed, n - 1);
        let after = id_text(seed, n);
        lemma_hex_char(b as int / 16);
        lemma_hex_char(b as int % 16);
        let raw = generator_state(seed, n) as u8;
        assert(((raw & 0x0f) | 0x40) / 16 == 4) by (bit_vector);
        assert(8 <= ((raw & 0x3f) | 0x80) / 16 <= 11) by (bit_vector);
        assert(forall|i: int| 0 <= i < before.len() ==> after[i] == before[i]);
        assert forall|i: int| 0 <= i < width(n) implies if hyphen_at(i) {
            #[trigger] after[i] == '-'
        } else {
            parser::hex_value(after[i]) is Some
        } by {
            if i < before.len() {
                assert(after[i] == before[i]);
            }
        }
    }
}

/// Every id made from a seed has the shape of a version-4 UUID.
pub proof fn law_seed_id_is_uuid_v4(seed: u64)
    ensures
        uuid_v4_shape(id_text(seed, 16)),
{
    lemma_id_shape(seed, 16);
}

/// A version-4 UUID is five groups of 8, 4, 4, 4 and 12 hexadecimal digits with hyphens
/// between them, of which the third begins with 4 and the fourth with a digit from 8 to b;
/// and nothing else is one.
pub proof fn law_uuid_groups(s: Seq<char>)
    ensures
        uuid_v4_shape(s) ==> {
            &&& s.len() == 36
            &&& s[8] == '-' && s[13] == '-' && s[18] == '-' && s[23] == '-'
            &&& parser::hex_value(s[14]) == Some(4int)
            &&& parser::hex_value(s[19]) is Some && 8 <= parser::hex_value(s[19]).unwrap() <= 11
        },
        forall|a: Seq<char>, b: Seq<char>, c: Seq<char>, d: Seq<char>, e: Seq<char>|
            s == #[trigger] grouped(a, b, c, d, e) && all_hex(a) && all_hex(b) && all_hex(c)
                && all_hex(d) && all_hex(e) && a.len() == 8 && b.len() == 4 && c.len() == 4
                && d.len() == 4 && e.len() == 12 && c[0] == '4' && (d[0] == '8' || d[0] == '9'
                || d[0] == 'a' || d[0] == 'b') ==> uuid_v4_shape(s),
{
    if uuid_v4_shape(s) {
        assert(hyphen_at(8) && hyphen_at(13) && hyphen_at(18) && hyphen_at(23));
        assert(s[8] == '-' && s[13] == '-' && s[18] == '-' && s[23] == '-');
    }
    assert forall|a: Seq<char>, b: Seq<char>, c: Seq<char>, d: Seq<char>, e: Seq<char>|
        s == #[trigger] grouped(a, b, c, d, e) && all_hex(a) && all_hex(b) && all_hex(c) && all_hex(
            d,
        ) && all_hex(e) && a.len() == 8 && b.len() == 4 && c.len() == 4 && d.len() == 4 && e.len()
            == 12 && c[0] == '4' && (d[0] == '8' || d[0] == '9' || d[0] == 'a' || d[0]
            == 'b') implies uuid_v4_shape(s) by {
        assert forall|i: int| 0 <= i < 36 implies if hyphen_at(i) {
            #[trigger] s[i] == '-'
        } else {
            parser::hex_value(s[i]) is Some
        } by {
            if i < 8 {
                assert(s[i] == a[i]);
            } else if 8 < i < 13 {
                assert(s[i] == b[i - 9]);
            } else if 13 < i < 18 {
                assert(s[i] == c[i - 14]);
            } else if 18 < i < 23 {
                assert(s[i] == d[i - 19]);
            } else if 23 < i {
                assert(s[i] == e[i - 24]);
            }
        }
        assert(s[14] == c[0] && s[19] == d[0]);
    }
}

/// Five groups with hyphens between them.
pub open spec fn grouped(
    a: Seq<char>,
    b: Seq<char>,
    c: Seq<char>,
    d: Seq<char>,
    e: Seq<char>,
) -> Seq<char> {
    a + seq!['-'] + b + seq!['-'] + c + seq!['-'] + d + seq!['-'] + e
}

/// Does `s` hold hexadecimal digits only?
pub open spec fn all_hex(s: Seq<char>) -> bool {
    forall|i: int| 0 <= i < s.len() ==> parser::hex_value(#[trigger] s[i]) is Some
}

/// Neighbouring seeds, such as readings of the clock shortly after each other, give
/// different ids: those that agree but for their last seven bits, of which the lowest does
/// not count.
pub proof fn law_near_seeds_give_different_ids(s: u64, t: u64)
    requires
        s / 128 == t / 128,
        s / 2 != t / 2,
    ensures
        id_text(s, 16) != id_text(t, 16),
{
    reveal_with_fuel(generator_state, 3);
    let x = generator_state(s, 1);
    let y = generator_state(t, 1);
    assert(x == xorshift(s | 1) && y == xorshift(t | 1));
    lemma_first_step(s, t);
    let a = id_byte(s, 0);
    let b = id_byte(t, 0);
    assert(a != b);
    lemma_begins(s, 16);
    lemma_begins(t, 16);
    let p = id_text(s, 16);
    let q = id_text(t, 16);
    if p == q {
        lemma_hex_char(a as int / 16);
        lemma_hex_char(a as int % 16);
        lemma_hex_char(b as int / 16);
        lemma_hex_char(b as int % 16);
        assert(a as int / 16 == b as int / 16 && a as int % 16 == b as int % 16);
    }
}

proof fn lemma_first_step(s: u64, t: u64)
    requires
        s / 128 == t / 128,
        s / 2 != t / 2,
    ensures
        xorshift(s | 1) as u8 != xorshift(t | 1) as u8,
{
    let (x, y) = (s | 1, t | 1);
    let (a, c) = (x ^ (x << 13u64), y ^ (y << 13u64));
    let (b, d) = (a ^ (a >> 7u64), c ^ (c >> 7u64));
    let (e, f) = (b ^ (b << 17u64), d ^ (d << 17u64));
    assert(e as u8 != f as u8) by (bit_vector)
        requires
            s / 128 == t / 128,
            s / 2 != t / 2,
            x == s | 1,
            y == t | 1,
            a == x ^ (x << 13u64),
            c == y ^ (y << 13u64),
            b == a ^ (a >> 7u64),
            d == c ^ (c >> 7u64),
            e == b ^ (b << 17u64),
            f == d ^ (d << 17u64),
    ;
}

/// An id begins with the digits of its first byte.
proof fn lemma_begins(seed: u64, n: int)
    requires
        1 <= n <= 16,
    ensures
        id_text(seed, n).len() >= 2,
        id_text(seed, n)[0] == json::hex_char(id_byte(seed, 0) as int / 16),
        id_text(seed, n)[1] == json::hex_char(id_byte(seed, 0) as int % 16),
    decreases n,
{
    if n > 1 {
        lemma_begins(seed, n - 1);
    } else {
        assert(id_text(seed, 0).len() == 0);
    }
}

/// An id of the shape of a version-4 UUID, made from `seed` alone. It is not
/// random: whoever needs provenance supplies an id of their own.
pub fn uuid_v4_from_seed(seed: u64) -> (r: String)
    ensures
        r@ == id_text(seed, 16),
        uuid_v4_shape(r@),
{
    let mut state: u64 = seed | 1;
    let mut out = String::new();
    let mut i: usize = 0;
    while i < 16
        invariant
            i <= 16,
            state == generator_state(seed, i as int),
            out@ == id_text(seed, i as int),
        decreases 16 - i,
    {
        let ghost before = out@;
        let ghost s0 = state;
        state = state ^ (state << 13u64);
        state = state ^ (state >> 7u64);
        state = state ^ (state << 17u64);
        assert(state == xorshift(s0));
        let raw: u8 = #[verifier::truncate] (state as u8);
        let b: u8 = if i == 6 {
            (raw & 0x0f) | 0x40
        } else if i == 8 {
            (raw & 0x3f) | 0x80
        } else {
            raw
        };
        if i == 4 || i == 6 || i == 8 || i == 10 {
            out.push('-');
        }
        out.push(json::hex_digit(b / 16));
        out.push(json::hex_digit(b % 16));
        i = i + 1;
        assert(b == id_byte(seed, i - 1));
        assert(out@ =~= id_text(seed, i as int));
    }
    proof {
        law_seed_id_is_uuid_v4(seed);
    }
    out
}

} // verus!
