//! What is read from JSON, and what the store makes of it.

use crate::calendar;
use crate::event;
use crate::event::EventKind;
use crate::json;
use crate::oid;
use crate::oid::Oid;
use crate::parser;
use crate::roundtrip;
use crate::store;
use crate::store::{Payload, StoreError};
use crate::text;
use vstd::prelude::*;

verus! {

// ---------------------------------------------------------------------------
// JSON

proof fn lemma_string_alone(s: Seq<char>)
    requires
        s.len() > 0,
        s[0] == '"',
    ensures
        parser::parse(s) == (match parser::chars_at(s, 1) {
            Some((t, j)) => if parser::after_space(s, j) == s.len() {
                Some(json::Json::Str(t))
            } else {
                None
            },
            None => None,
        }),
{
    assert(parser::after_space(s, 0) == 0);
}

/// Four hexadecimal digits behind `\u`, of either case, stand for the character of that
/// number; half of a pair of surrogates, alone, for none.
pub proof fn law_unicode_escapes(h: Seq<char>)
    requires
        h.len() == 4,
        oid::all_hex(h),
    ensures
        ({
            let n = oid::hex_number(h);
            let s = seq!['"', '\\', 'u'] + h + seq!['"'];
            &&& !(0xd800 <= n <= 0xdfff) ==> parser::parse(s) == Some(
                json::Json::Str(seq![n as char]),
            )
            &&& 0xd800 <= n <= 0xdfff ==> parser::parse(s) is None
        }),
{
    let n = oid::hex_number(h);
    let s = seq!['"', '\\', 'u'] + h + seq!['"'];
    lemma_four(h);
    assert(s[1] == '\\' && s[2] == 'u' && s[3] == h[0] && s[4] == h[1] && s[5] == h[2] && s[6]
        == h[3] && s[7] == '"' && s.len() == 8);
    lemma_string_alone(s);
    reveal(parser::escape_at);
    reveal_with_fuel(parser::chars_at, 3);
    assert(parser::hex4_at(s, 3) == Some(n));
    if !(0xd800 <= n <= 0xdfff) {
        assert(parser::escape_at(s, 2) == Some((n as char, 7int)));
        assert(parser::chars_at(s, 7) == Some((Seq::<char>::empty(), 8int)));
        assert(seq![n as char] + Seq::<char>::empty() =~= seq![n as char]);
        assert(parser::after_space(s, 8) == 8);
    } else {
        assert(parser::escape_at(s, 2) is None);
    }
}

proof fn lemma_four(h: Seq<char>)
    requires
        h.len() == 4,
        oid::all_hex(h),
    ensures
        parser::hex_value(h[0]) is Some && parser::hex_value(h[1]) is Some && parser::hex_value(
            h[2],
        ) is Some && parser::hex_value(h[3]) is Some,
        oid::hex_number(h) == parser::hex_value(h[0]).unwrap() * 4096 + parser::hex_value(
            h[1],
        ).unwrap() * 256 + parser::hex_value(h[2]).unwrap() * 16 + parser::hex_value(h[3]).unwrap(),
        0 <= oid::hex_number(h) < 0x10000,
{
    reveal_with_fuel(oid::hex_number, 5);
    let a = h.drop_last();
    let b = a.drop_last();
    let c = b.drop_last();
    assert(a.last() == h[2] && b.last() == h[1] && c.last() == h[0]);
    assert(c.drop_last().len() == 0);
}

/// Two halves of a pair of surrogates stand for the one character that they are the
/// halves of.
pub proof fn law_surrogates_are_joined(h: Seq<char>, l: Seq<char>, c: char)
    requires
        h.len() == 4,
        l.len() == 4,
        oid::all_hex(h),
        oid::all_hex(l),
        c as int >= 0x10000,
        oid::hex_number(h) == 0xd800 + (c as int - 0x10000) / 1024,
        oid::hex_number(l) == 0xdc00 + (c as int - 0x10000) % 1024,
    ensures
        parser::parse(seq!['"', '\\', 'u'] + h + seq!['\\', 'u'] + l + seq!['"']) == Some(
            json::Json::Str(seq![c]),
        ),
{
    let s = seq!['"', '\\', 'u'] + h + seq!['\\', 'u'] + l + seq!['"'];
    lemma_four(h);
    lemma_four(l);
    assert(s[1] == '\\' && s[2] == 'u' && s[3] == h[0] && s[4] == h[1] && s[5] == h[2] && s[6]
        == h[3]);
    assert(s[7] == '\\' && s[8] == 'u' && s[9] == l[0] && s[10] == l[1] && s[11] == l[2] && s[12]
        == l[3] && s[13] == '"' && s.len() == 14);
    lemma_string_alone(s);
    reveal(parser::escape_at);
    reveal_with_fuel(parser::chars_at, 3);
    let hi = oid::hex_number(h);
    let lo = oid::hex_number(l);
    assert(parser::hex4_at(s, 3) == Some(hi));
    assert(parser::hex4_at(s, 9) == Some(lo));
    assert(c as int <= 0x10ffff);
    assert(0xd800 <= hi <= 0xdbff && 0xdc00 <= lo <= 0xdfff);
    assert(0x10000 + (hi - 0xd800) * 1024 + (lo - 0xdc00) == c as int);
    assert(parser::escape_at(s, 2) == Some((c, 13int)));
    assert(parser::chars_at(s, 13) == Some((Seq::<char>::empty(), 14int)));
    assert(seq![c] + Seq::<char>::empty() =~= seq![c]);
    assert(parser::after_space(s, 14) == 14);
}

/// A character that is escaped stands for itself where it is a quote, a backslash or a
/// slash; a letter stands for a control character or is refused.
pub proof fn law_short_escapes(x: char)
    requires
        x != 'u',
    ensures
        ({
            let read = parser::parse(seq!['"', '\\', x, '"']);
            &&& x == '"' || x == '\\' || x == '/' ==> read == Some(json::Json::Str(seq![x]))
            &&& x == 'n' ==> read == Some(json::Json::Str(seq!['\n']))
            &&& x == 't' ==> read == Some(json::Json::Str(seq!['\t']))
            &&& x == 'r' ==> read == Some(json::Json::Str(seq!['\r']))
            &&& x == 'b' ==> read == Some(json::Json::Str(seq!['\u{8}']))
            &&& x == 'f' ==> read == Some(json::Json::Str(seq!['\u{c}']))
            &&& !(x == '"' || x == '\\' || x == '/' || x == 'n' || x == 't' || x == 'r' || x == 'b'
                || x == 'f') ==> read is None
        }),
{
    let s = seq!['"', '\\', x, '"'];
    lemma_string_alone(s);
    reveal(parser::escape_at);
    reveal_with_fuel(parser::chars_at, 3);
    if parser::escape_at(s, 2) is Some {
        let c = parser::escape_at(s, 2).unwrap().0;
        assert(parser::escape_at(s, 2) == Some((c, 3int)));
        assert(parser::chars_at(s, 3) == Some((Seq::<char>::empty(), 4int)));
        assert(seq![c] + Seq::<char>::empty() =~= seq![c]);
        assert(parser::after_space(s, 4) == 4);
    }
}

/// Text of a string that stands for itself.
pub open spec fn is_plain(s: Seq<char>) -> bool {
    forall|k: int|
        0 <= k < s.len() ==> #[trigger] s[k] != '"' && s[k] != '\\' && s[k] as int >= 0x20
}

/// A control character must be escaped: as it is, it is refused wherever it stands.
pub proof fn law_raw_controls_are_refused(a: Seq<char>, c: char, b: Seq<char>)
    requires
        is_plain(a),
        (c as int) < 0x20,
    ensures
        parser::parse(seq!['"'] + a + seq![c] + b + seq!['"']) is None,
{
    let s = seq!['"'] + a + seq![c] + b + seq!['"'];
    lemma_string_alone(s);
    assert(s[a.len() as int + 1] == c);
    assert forall|k: int| 1 <= k < a.len() + 1 implies #[trigger] s[k] != '"' && s[k] != '\\' && s[k]
        as int >= 0x20 by {
        assert(s[k] == a[k - 1]);
    }
    lemma_stops(s, 1, a.len() as int + 1);
}

proof fn lemma_stops(s: Seq<char>, i: int, n: int)
    requires
        0 <= i <= n < s.len(),
        forall|k: int|
            i <= k < n ==> #[trigger] s[k] != '"' && s[k] != '\\' && s[k] as int >= 0x20,
        (s[n] as int) < 0x20,
    ensures
        parser::chars_at(s, i) is None,
    decreases n - i,
{
    if i < n {
        assert(s[i] != '"');
        lemma_stops(s, i + 1, n);
    }
}

/// Plain text in quotes is that text, in every script.
pub proof fn law_plain_strings_read(a: Seq<char>)
    requires
        is_plain(a),
    ensures
        parser::parse(seq!['"'] + a + seq!['"']) == Some(json::Json::Str(a)),
{
    let s = seq!['"'] + a + seq!['"'];
    lemma_string_alone(s);
    assert forall|k: int| 1 <= k < a.len() + 1 implies #[trigger] s[k] == a[k - 1] && a[k - 1] != '"'
        && a[k - 1] != '\\' && a[k - 1] as int >= 0x20 by {
    }
    lemma_plain(s, a, 0);
    assert(a.skip(0) =~= a);
    assert(parser::after_space(s, s.len() as int) == s.len());
}

proof fn lemma_plain(s: Seq<char>, a: Seq<char>, i: int)
    requires
        0 <= i <= a.len(),
        s == seq!['"'] + a + seq!['"'],
        is_plain(a),
    ensures
        parser::chars_at(s, i + 1) == Some((a.skip(i), s.len() as int)),
    decreases a.len() - i,
{
    if i < a.len() {
        assert(s[i + 1] == a[i]);
        lemma_plain(s, a, i + 1);
        assert(seq![a[i]] + a.skip(i + 1) =~= a.skip(i));
    } else {
        assert(s[i + 1] == '"');
        assert(a.skip(i) =~= seq![]);
    }
}

/// The words of JSON.
pub proof fn law_words_read(b: bool)
    ensures
        json::value_text(json::Json::Bool(b)) == (if b {
            "true"@
        } else {
            "false"@
        }),
        json::value_text(json::Json::Null) == "null"@,
        parser::parse(
            if b {
                "true"@
            } else {
                "false"@
            },
        ) == Some(json::Json::Bool(b)),
        parser::parse("null"@) == Some(json::Json::Null),
{
    reveal_strlit("true");
    reveal_strlit("false");
    reveal_strlit("null");
    assert("true"@ =~= seq!['t', 'r', 'u', 'e']);
    assert("false"@ =~= seq!['f', 'a', 'l', 's', 'e']);
    assert("null"@ =~= seq!['n', 'u', 'l', 'l']);
    roundtrip::law_value_reads_back(json::Json::Bool(b));
    roundtrip::law_value_reads_back(json::Json::Null);
}

/// A number that does not fit in 64 bits is refused; any other reads as itself.
pub proof fn law_numbers_read(n: int)
    ensures
        i64::MIN <= n <= i64::MAX ==> parser::parse(text::signed_decimal(n)) == Some(
            json::Json::Number(n),
        ),
        !(i64::MIN <= n <= i64::MAX) ==> parser::parse(text::signed_decimal(n)) is None,
{
    if i64::MIN <= n <= i64::MAX {
        roundtrip::law_value_reads_back(json::Json::Number(n));
    } else {
        let s = text::signed_decimal(n);
        let m = if n < 0 {
            (-n) as nat
        } else {
            n as nat
        };
        let d = text::decimal(m);
        text::law_decimal_reads_back(m);
        let first: int = if n < 0 {
            1
        } else {
            0
        };
        assert(s.subrange(first, s.len() as int) =~= d);
        assert forall|k: int| first <= k < s.len() implies text::is_digit(#[trigger] s[k]) by {
            assert(s[k] == d[k - first]);
        }
        roundtrip::lemma_digits_end(s, first, s.len() as int);
        assert(d.len() >= 1 && text::is_digit(d[0]));
        assert(s[0] == '-' || text::is_digit(s[0]));
        assert(parser::after_space(s, 0) == 0);
        assert(parser::number_at(s, 0) is None);
        assert(!parser::word_at(s, 0, seq!['t', 'r', 'u', 'e'])) by {
            assert(s.len() >= 4 ==> s.subrange(0, 4)[0] == s[0]);
        }
        assert(!parser::word_at(s, 0, seq!['f', 'a', 'l', 's', 'e'])) by {
            assert(s.len() >= 5 ==> s.subrange(0, 5)[0] == s[0]);
        }
        assert(!parser::word_at(s, 0, seq!['n', 'u', 'l', 'l'])) by {
            assert(s.len() >= 4 ==> s.subrange(0, 4)[0] == s[0]);
        }
    }
}

/// Of members with the same name the last one counts.
pub proof fn law_last_member_counts(m: Seq<(Seq<char>, json::Json)>, i: int)
    requires
        forall|k: int| 0 <= k < m.len() ==> roundtrip::canonical((#[trigger] m[k]).1),
        0 <= i < m.len(),
        forall|k: int| i < k < m.len() ==> (#[trigger] m[k]).0 != m[i].0,
    ensures
        ({
            let read = parser::parse(json::object_text(m));
            &&& read is Some
            &&& read.unwrap() is Obj
            &&& json::lookup(read.unwrap()->Obj_0, m[i].0) == Some(m[i].1)
        }),
{
    let t = json::object_text(m);
    let s = seq![] + t + seq![];
    assert(s =~= t);
    assert(roundtrip::stands_at(s, 0, t));
    roundtrip::lemma_object(s, 0, m);
    assert(t[0] == '{');
    let all = roundtrip::add_members(seq![], m, 0);
    roundtrip::lemma_parse_in_space(seq![], t, seq![], json::Json::Obj(all));
    lemma_set(seq![], m, 0, i);
}

/// A name that no member has is not found.
pub proof fn law_absent_member(m: Seq<(Seq<char>, json::Json)>, key: Seq<char>)
    requires
        forall|k: int| 0 <= k < m.len() ==> roundtrip::canonical((#[trigger] m[k]).1),
        forall|k: int| 0 <= k < m.len() ==> (#[trigger] m[k]).0 != key,
    ensures
        ({
            let read = parser::parse(json::object_text(m));
            &&& read is Some
            &&& read.unwrap() is Obj
            &&& json::lookup(read.unwrap()->Obj_0, key) is None
        }),
{
    let t = json::object_text(m);
    let s = seq![] + t + seq![];
    assert(s =~= t);
    assert(roundtrip::stands_at(s, 0, t));
    roundtrip::lemma_object(s, 0, m);
    assert(t[0] == '{');
    let all = roundtrip::add_members(seq![], m, 0);
    roundtrip::lemma_parse_in_space(seq![], t, seq![], json::Json::Obj(all));
    lemma_unset(seq![], m, 0, key);
}

proof fn lemma_unset(
    done: Seq<(Seq<char>, json::Json)>,
    m: Seq<(Seq<char>, json::Json)>,
    n: int,
    key: Seq<char>,
)
    requires
        json::ordered(done),
        0 <= n <= m.len(),
        forall|k: int| n <= k < m.len() ==> (#[trigger] m[k]).0 != key,
    ensures
        json::lookup(roundtrip::add_members(done, m, n), key) == json::lookup(done, key),
    decreases m.len() - n,
{
    if n < m.len() {
        assert(m[n].0 != key);
        json::law_with_member_ordered(done, m[n].0, m[n].1);
        json::law_with_member_lookup(done, m[n].0, m[n].1, key);
        lemma_unset(json::with_member(done, m[n].0, m[n].1), m, n + 1, key);
    }
}

proof fn lemma_set(
    done: Seq<(Seq<char>, json::Json)>,
    m: Seq<(Seq<char>, json::Json)>,
    n: int,
    i: int,
)
    requires
        json::ordered(done),
        0 <= n <= i < m.len(),
        forall|k: int| i < k < m.len() ==> (#[trigger] m[k]).0 != m[i].0,
    ensures
        json::lookup(roundtrip::add_members(done, m, n), m[i].0) == Some(m[i].1),
    decreases m.len() - n,
{
    let next = json::with_member(done, m[n].0, m[n].1);
    json::law_with_member_ordered(done, m[n].0, m[n].1);
    if n < i {
        lemma_set(next, m, n + 1, i);
    } else {
        json::law_with_member_lookup(done, m[i].0, m[i].1, m[i].0);
        lemma_unset(next, m, n + 1, m[i].0);
    }
}

/// Nothing but white space may stand behind an object.
pub proof fn law_nothing_stands_behind(m: Seq<(Seq<char>, json::Json)>, tail: Seq<char>)
    requires
        forall|k: int| 0 <= k < m.len() ==> roundtrip::canonical((#[trigger] m[k]).1),
        tail.len() > 0,
        !parser::is_space(tail[0]),
    ensures
        parser::parse(json::object_text(m) + tail) is None,
{
    let t = json::object_text(m);
    let s = t + tail;
    assert(roundtrip::stands_at(s, 0, t));
    roundtrip::lemma_object(s, 0, m);
    assert(s[t.len() as int] == tail[0]);
}

// ---------------------------------------------------------------------------
// The store

/// What an error says, but for its kind.
pub open spec fn error_detail(e: StoreError) -> Option<Seq<char>> {
    match e {
        StoreError::Git(f) => Some(f.message@),
        StoreError::RefExists(s) => Some(s@),
        StoreError::Command(s) => Some(s@),
        StoreError::InvalidState(s) => Some(s@),
        _ => None,
    }
}

/// The words before what an error says, or all of its words.
spec fn error_words(e: StoreError) -> Seq<char> {
    match e {
        StoreError::Git(f) => "git error: "@,
        StoreError::RefExists(s) => "entity ref already exists: "@,
        StoreError::Command(s) => "git command failed: "@,
        StoreError::InvalidState(s) => "invalid store state: "@,
        _ => store::error_text(e),
    }
}

proof fn lemma_error_words(e: StoreError)
    ensures
        error_detail(e) is Some ==> store::error_text(e) == error_words(e)
            + error_detail(e).unwrap(),
        error_words(e).len() == (match e {
            StoreError::Git(_) => 11int,
            StoreError::RefExists(_) => 27int,
            StoreError::Command(_) => 20int,
            StoreError::InvalidState(_) => 21int,
            StoreError::NotAGitRepository => 55int,
            StoreError::CasConflict => 35int,
            StoreError::Exhausted => 45int,
            StoreError::MissingEvent => 38int,
            StoreError::MissingRef => 27int,
        }),
        error_words(e)[4] == (match e {
            StoreError::Git(_) => 'e',
            StoreError::RefExists(_) => 't',
            StoreError::Command(_) => 'c',
            StoreError::InvalidState(_) => 'l',
            StoreError::NotAGitRepository => 'a',
            StoreError::CasConflict => 'C',
            StoreError::Exhausted => 'd',
            StoreError::MissingEvent => 't',
            StoreError::MissingRef => 'i',
        }),
{
    reveal_strlit("git error: ");
    reveal_strlit("not a git repository (or any of the parent directories)");
    reveal_strlit("ref CAS conflict — ref moved, retry");
    reveal_strlit("bounded CAS retries exhausted; refs unchanged");
    reveal_strlit("entity chain has no event.json payload");
    reveal_strlit("required ref does not exist");
    reveal_strlit("entity ref already exists: ");
    reveal_strlit("git command failed: ");
    reveal_strlit("invalid store state: ");
}

/// What an error says is told at the end, and errors without anything to say are told
/// apart from each other.
pub proof fn law_errors_are_told(a: StoreError, b: StoreError)
    ensures
        error_detail(a) matches Some(s) ==> text::ends_with(store::error_text(a), s)
            && store::error_text(a).len() > s.len(),
        error_detail(a) is None && error_detail(b) is None && store::error_text(a)
            == store::error_text(b) ==> a == b,
        error_detail(a) is Some && error_detail(b) is Some && store::error_text(a)
            == store::error_text(b) ==> error_detail(a) == error_detail(b),
{
    lemma_error_words(a);
    lemma_error_words(b);
    let x = store::error_text(a);
    let y = store::error_text(b);
    if error_detail(a) is Some {
        let s = error_detail(a).unwrap();
        assert(x.skip(x.len() - s.len()) =~= s);
    }
    if error_detail(a) is Some && error_detail(b) is Some && x == y {
        let s = error_detail(a).unwrap();
        let t = error_detail(b).unwrap();
        assert(x[4] == error_words(a)[4] && y[4] == error_words(b)[4]);
        assert(y.skip(y.len() - t.len()) =~= t);
    }
}

/// The message of a commit begins with `forge:` and tells the kind of the event and the
/// number apart from those of any other.
pub proof fn law_commit_messages_differ(a: event::EventModel, b: event::EventModel)
    requires
        a.entity_id >= 0,
        b.entity_id >= 0,
    ensures
        text::starts_with(store::commit_message(a), "forge:"@ + event::kind_text(a.kind)),
        text::ends_with(store::commit_message(a), text::decimal(a.entity_id as nat)),
        store::commit_message(a) == store::commit_message(b) ==> a.kind == b.kind && a.entity_id
            == b.entity_id,
{
    reveal_strlit("forge:");
    reveal_strlit(":");
    let x = store::commit_message(a);
    let y = store::commit_message(b);
    let ka = event::kind_text(a.kind);
    let kb = event::kind_text(b.kind);
    let na = text::decimal(a.entity_id as nat);
    let nb = text::decimal(b.entity_id as nat);
    assert(x.take(("forge:"@ + ka).len() as int) =~= "forge:"@ + ka);
    assert(x.skip(x.len() - na.len()) =~= na);
    if x == y {
        lemma_kind_has_no_colon(a.kind);
        lemma_kind_has_no_colon(b.kind);
        let p = 6 + ka.len() as int;
        let q = 6 + kb.len() as int;
        assert(x[p] == ':' && y[q] == ':');
        if p < q {
            assert(y[p] == kb[p - 6]);
        }
        if q < p {
            assert(x[q] == ka[q - 6]);
        }
        assert(x.subrange(6, p) =~= ka);
        assert(y.subrange(6, q) =~= kb);
        assert(x.skip(p + 1) =~= na);
        assert(y.skip(q + 1) =~= nb);
        event::law_kind_reads_back(a.kind);
        event::law_kind_reads_back(b.kind);
        text::law_decimal_injective(a.entity_id as nat, b.entity_id as nat);
    }
}

proof fn lemma_kind_has_no_colon(k: EventKind)
    ensures
        forall|i: int| 0 <= i < event::kind_text(k).len() ==> #[trigger] event::kind_text(k)[i] != ':',
{
    reveal_strlit("issue.created");
    reveal_strlit("issue.comment");
    reveal_strlit("issue.close");
    reveal_strlit("issue.reopen");
    reveal_strlit("pr.created");
    reveal_strlit("pr.comment");
    reveal_strlit("pr.review");
    reveal_strlit("pr.merge");
    reveal_strlit("ci.check");
}

/// A stored event creates a pull request where it is of that kind, whatever else it
/// holds; a commit without an event creates none.
pub proof fn law_creation_is_known_by_its_kind(e: event::EventModel, p: Payload)
    requires
        store::storable(e),
        store::holds_event(p, e),
    ensures
        store::payload_creates(p) == Ok::<bool, store::PayloadFault>(
            event::kind_text(e.kind) == "pr.created"@,
        ),
        store::payload_creates(Payload::Absent) == Ok::<bool, store::PayloadFault>(false),
{
    let t = event::event_text(e);
    vstd::utf8::encode_utf8_decode_utf8(t);
    vstd::utf8::encode_utf8_valid_utf8(t);
    event::law_event_reads_back(e);
    event::law_kind_reads_back(e.kind);
    event::law_kind_reads_back(EventKind::PrCreated);
}

/// A chain is anchored at its creation where it has exactly one creation and that is the
/// commit which the anchor names.
pub proof fn law_anchor(created: Seq<Oid>, meta: Option<Oid>)
    ensures
        store::anchored(created, meta) ==> created.len() == 1 && meta == Some(created[0]),
        created.len() == 1 ==> store::anchored(created, Some(created[0])),
        meta is None || created.len() != 1 ==> !store::anchored(created, meta),
{
    if created.len() == 1 {
        assert(created =~= seq![created[0]]);
    }
    if store::anchored(created, meta) {
        assert(created[0] == meta.unwrap());
    }
}

// ---------------------------------------------------------------------------
// The clock

/// A moment before or behind the beginning of 1970, in nanoseconds.
pub open spec fn moment(offset: Result<(u64, u32), (u64, u32)>) -> int {
    match offset {
        Ok(d) => d.0 * 1_000_000_000 + d.1,
        Err(d) => -(d.0 * 1_000_000_000 + d.1),
    }
}

/// The second of a moment is the one that it lies in, before 1970 too.
pub proof fn law_second_holds_the_moment(offset: Result<(u64, u32), (u64, u32)>)
    requires
        offset matches Ok(d) ==> d.1 < 1_000_000_000 && d.0 <= i64::MAX,
        offset matches Err(d) ==> d.1 < 1_000_000_000 && d.0 < i64::MAX,
    ensures
        calendar::second_of(offset) * 1_000_000_000 <= moment(offset),
        moment(offset) < (calendar::second_of(offset) + 1) * 1_000_000_000,
{
}

/// Later moments have later seconds, or the same one.
pub proof fn law_seconds_keep_the_order(
    a: Result<(u64, u32), (u64, u32)>,
    b: Result<(u64, u32), (u64, u32)>,
)
    requires
        a matches Ok(d) ==> d.1 < 1_000_000_000,
        a matches Err(d) ==> d.1 < 1_000_000_000,
        b matches Ok(d) ==> d.1 < 1_000_000_000,
        b matches Err(d) ==> d.1 < 1_000_000_000,
        moment(a) <= moment(b),
    ensures
        calendar::second_of(a) <= calendar::second_of(b),
{
}

} // verus!
