//! The JSON dialect of stored events: values, their text, and the parser.
//!
//! Numbers are 64-bit integers; there are no fractions and no exponents.

use crate::roundtrip;
use crate::text;
use vstd::prelude::*;

verus! {

/// A JSON value as mathematics sees it. An object is the sequence of its
/// members, ordered by key.
#[verifier::ext_equal]
pub enum Json {
    Null,
    Bool(bool),
    Number(int),
    Str(Seq<char>),
    Arr(Seq<Json>),
    Obj(Seq<(Seq<char>, Json)>),
}

/// A JSON value.
#[derive(Debug, PartialEq, Eq)]
pub enum JsonValue {
    Null,
    Bool(bool),
    Number(i64),
    String(String),
    Array(Vec<JsonValue>),
    Object(JsonObject),
}

/// The members of a JSON object: a map from keys to values. The members are
/// kept in the order of their keys, so that equal maps are equal values and
/// have one text.
#[derive(Debug, PartialEq, Eq)]
pub struct JsonObject {
    members: Vec<(String, JsonValue)>,
}

// ---------------------------------------------------------------------------
// Members of an object

/// The value of `key` among the members `m`.
pub open spec fn lookup(m: Seq<(Seq<char>, Json)>, key: Seq<char>) -> Option<Json>
    decreases m.len(),
{
    if m.len() == 0 {
        None
    } else if m[0].0 == key {
        Some(m[0].1)
    } else {
        lookup(m.skip(1), key)
    }
}

/// Are the members in strictly rising order of their keys?
pub open spec fn ordered(m: Seq<(Seq<char>, Json)>) -> bool {
    forall|i: int, j: int|
        0 <= i < j < m.len() ==> text::precedes((#[trigger] m[i]).0, (#[trigger] m[j]).0)
}

/// The first place from `i` on whose key does not come before `key`.
pub open spec fn place_of(m: Seq<(Seq<char>, Json)>, key: Seq<char>, i: int) -> int
    decreases m.len() - i,
{
    if 0 <= i < m.len() && text::precedes(m[i].0, key) {
        place_of(m, key, i + 1)
    } else {
        i
    }
}

/// The members `m` with `key` set to `value`: a member with that key gets the
/// new value, and a new key gets a new member in its place.
pub open spec fn with_member(m: Seq<(Seq<char>, Json)>, key: Seq<char>, value: Json) -> Seq<
    (Seq<char>, Json),
> {
    let p = place_of(m, key, 0);
    if p < m.len() && m[p].0 == key {
        m.update(p, (key, value))
    } else {
        m.insert(p, (key, value))
    }
}

/// The place of a key lies behind all members whose keys come before it, and
/// before the end.
pub(crate) proof fn lemma_place(m: Seq<(Seq<char>, Json)>, key: Seq<char>, i: int)
    requires
        0 <= i <= m.len(),
    ensures
        i <= place_of(m, key, i) <= m.len(),
        forall|k: int| i <= k < place_of(m, key, i) ==> text::precedes((#[trigger] m[k]).0, key),
        place_of(m, key, i) < m.len() ==> !text::precedes(m[place_of(m, key, i)].0, key),
    decreases m.len() - i,
{
    if i < m.len() && text::precedes(m[i].0, key) {
        lemma_place(m, key, i + 1);
    }
}

/// Setting a member keeps the members in the order of their keys.
pub proof fn law_with_member_ordered(m: Seq<(Seq<char>, Json)>, key: Seq<char>, value: Json)
    requires
        ordered(m),
    ensures
        ordered(with_member(m, key, value)),
{
    let p = place_of(m, key, 0);
    lemma_place(m, key, 0);
    let r = with_member(m, key, value);
    if p < m.len() && m[p].0 == key {
        assert forall|i: int, j: int| 0 <= i < j < r.len() implies text::precedes(
            (#[trigger] r[i]).0,
            (#[trigger] r[j]).0,
        ) by {
            assert(r[i].0 == m[i].0);
            assert(r[j].0 == m[j].0);
        }
    } else {
        assert forall|i: int, j: int| 0 <= i < j < r.len() implies text::precedes(
            (#[trigger] r[i]).0,
            (#[trigger] r[j]).0,
        ) by {
            if p < m.len() {
                text::law_order_total(m[p].0, key);
            }
            if j < p {
                assert(r[i] == m[i] && r[j] == m[j]);
            } else if j == p {
                assert(r[i] == m[i]);
            } else if i < p {
                assert(r[i] == m[i] && r[j] == m[j - 1]);
            } else if i == p {
                assert(r[j] == m[j - 1]);
                if j - 1 > p {
                    text::law_order_transitive(key, m[p].0, m[j - 1].0);
                }
            } else {
                assert(r[i] == m[i - 1] && r[j] == m[j - 1]);
            }
        }
    }
}

/// A key is found exactly where the members have it.
pub(crate) proof fn lemma_lookup(m: Seq<(Seq<char>, Json)>, key: Seq<char>)
    ensures
        match lookup(m, key) {
            Some(v) => exists|i: int|
                0 <= i < m.len() && (#[trigger] m[i]).0 == key && m[i].1 == v && (forall|j: int|
                    0 <= j < i ==> (#[trigger] m[j]).0 != key),
            None => forall|j: int| 0 <= j < m.len() ==> (#[trigger] m[j]).0 != key,
        },
    decreases m.len(),
{
    if m.len() > 0 && m[0].0 != key {
        let t = m.skip(1);
        lemma_lookup(t, key);
        match lookup(t, key) {
            Some(v) => {
                let i = choose|i: int|
                    0 <= i < t.len() && (#[trigger] t[i]).0 == key && t[i].1 == v && (forall|j: int|
                        0 <= j < i ==> (#[trigger] t[j]).0 != key);
                assert(m[i + 1] == t[i]);
                assert forall|j: int| 0 <= j < i + 1 implies (#[trigger] m[j]).0 != key by {
                    if j > 0 {
                        assert(m[j] == t[j - 1]);
                    }
                }
            },
            None => {
                assert forall|j: int| 0 <= j < m.len() implies (#[trigger] m[j]).0 != key by {
                    if j > 0 {
                        assert(m[j] == t[j - 1]);
                    }
                }
            },
        }
    }
}

/// Members in order have each key once, so any member with a key is the one found.
pub(crate) proof fn lemma_lookup_at(m: Seq<(Seq<char>, Json)>, i: int)
    requires
        0 <= i < m.len(),
        ordered(m),
    ensures
        lookup(m, m[i].0) == Some(m[i].1),
{
    lemma_lookup(m, m[i].0);
    assert(m[i].0 == m[i].0);
    let v = lookup(m, m[i].0).unwrap();
    let k = choose|k: int|
        0 <= k < m.len() && (#[trigger] m[k]).0 == m[i].0 && m[k].1 == v && (forall|j: int|
            0 <= j < k ==> (#[trigger] m[j]).0 != m[i].0);
    text::law_order_irreflexive(m[i].0);
    assert(k == i);
}

/// A set member is found under its key, and every other key is found as before.
pub proof fn law_with_member_lookup(
    m: Seq<(Seq<char>, Json)>,
    key: Seq<char>,
    value: Json,
    other: Seq<char>,
)
    requires
        ordered(m),
    ensures
        lookup(with_member(m, key, value), other) == if other == key {
            Some(value)
        } else {
            lookup(m, other)
        },
{
    let p = place_of(m, key, 0);
    lemma_place(m, key, 0);
    let r = with_member(m, key, value);
    law_with_member_ordered(m, key, value);
    lemma_lookup(m, other);
    lemma_lookup(r, other);
    if other == key {
        lemma_lookup_at(r, p);
    } else {
        match lookup(m, other) {
            Some(v) => {
                let i = choose|i: int| 0 <= i < m.len() && (#[trigger] m[i]).0 == other && m[i].1 == v;
                let k = if p < m.len() && m[p].0 == key || i < p {
                    i
                } else {
                    i + 1
                };
                assert(r[k] == m[i]);
                lemma_lookup_at(r, k);
            },
            None => {
                if let Some(v) = lookup(r, other) {
                    let k = choose|k: int| 0 <= k < r.len() && (#[trigger] r[k]).0 == other;
                    let i = if p < m.len() && m[p].0 == key || k < p {
                        k
                    } else {
                        k - 1
                    };
                    assert(k != p);
                    assert(m[i] == r[k]);
                }
            },
        }
    }
}

impl JsonValue {
    /// The value that this one stands for.
    pub open spec fn view(&self) -> Json
        decreases self, 0int,
    {
        match self {
            JsonValue::Null => Json::Null,
            JsonValue::Bool(b) => Json::Bool(*b),
            JsonValue::Number(n) => Json::Number(*n as int),
            JsonValue::String(s) => Json::Str(s@),
            JsonValue::Array(items) => Json::Arr(
                Seq::new(
                    items@.len(),
                    |i: int|
                        if 0 <= i < items@.len() {
                            items@[i].view()
                        } else {
                            arbitrary()
                        },
                ),
            ),
            JsonValue::Object(o) => Json::Obj(o.view()),
        }
    }

    /// The text, where this is a string.
    pub fn as_str(&self) -> (r: Option<&str>)
        ensures
            match r {
                Some(s) => self@ == Json::Str(s@),
                None => !(self@ is Str),
            },
    {
        match self {
            JsonValue::String(s) => Some(s.as_str()),
            _ => None,
        }
    }

    /// The number, where this is one that is not below zero.
    pub fn as_u64(&self) -> (r: Option<u64>)
        ensures
            match r {
                Some(n) => self@ == Json::Number(n as int),
                None => !(self@ is Number) || self@->Number_0 < 0,
            },
    {
        match self {
            JsonValue::Number(n) => if *n >= 0 {
                Some(*n as u64)
            } else {
                None
            },
            _ => None,
        }
    }

    /// The members, where this is an object.
    pub fn as_object(&self) -> (r: Option<&JsonObject>)
        ensures
            match r {
                Some(o) => self@ == Json::Obj(o@),
                None => !(self@ is Obj),
            },
    {
        match self {
            JsonValue::Object(o) => Some(o),
            _ => None,
        }
    }
}

impl Clone for JsonValue {
    fn clone(&self) -> (r: Self)
        ensures
            r@ == self@,
        decreases self, 0int,
    {
        match self {
            JsonValue::Null => JsonValue::Null,
            JsonValue::Bool(b) => JsonValue::Bool(*b),
            JsonValue::Number(n) => JsonValue::Number(*n),
            JsonValue::String(s) => JsonValue::String(s.clone()),
            JsonValue::Array(items) => {
                let mut copy: Vec<JsonValue> = Vec::new();
                let mut i: usize = 0;
                while i < items.len()
                    invariant
                        i <= items.len(),
                        self matches JsonValue::Array(a) && a == items,
                        copy.len() == i,
                        forall|k: int| 0 <= k < i ==> (#[trigger] copy@[k])@ == items@[k]@,
                    decreases items.len() - i,
                {
                    let item = &items[i];
                    assert(decreases_to!(*self => *items));
                    assert(decreases_to!(items@ => items@[i as int]));
                    copy.push(item.clone());
                    i = i + 1;
                }
                let r = JsonValue::Array(copy);
                assert(r@->Arr_0 =~= self@->Arr_0);
                r
            },
            JsonValue::Object(o) => JsonValue::Object(o.clone()),
        }
    }
}

impl JsonObject {
    /// The members, in the order of their keys.
    pub closed spec fn view(&self) -> Seq<(Seq<char>, Json)>
        decreases self, 0int,
    {
        Seq::new(
            self.members@.len(),
            |i: int|
                if 0 <= i < self.members@.len() {
                    (self.members@[i].0@, self.members@[i].1.view())
                } else {
                    arbitrary()
                },
        )
    }

    #[verifier::type_invariant]
    spec fn wf(self) -> bool {
        ordered(self.view())
    }

    /// No members.
    pub fn new() -> (r: Self)
        ensures
            r@ == Seq::<(Seq<char>, Json)>::empty(),
    {
        let members: Vec<(String, JsonValue)> = Vec::new();
        let r = JsonObject { members };
        assert(r@ =~= Seq::<(Seq<char>, Json)>::empty());
        r
    }

    /// The value of `key`.
    pub fn get(&self, key: &str) -> (r: Option<&JsonValue>)
        ensures
            match r {
                Some(v) => lookup(self@, key@) == Some(v@),
                None => lookup(self@, key@) is None,
            },
    {
        let mut i: usize = 0;
        assert(self@.skip(0) =~= self@);
        while i < self.members.len()
            invariant
                i <= self.members@.len(),
                lookup(self@.skip(i as int), key@) == lookup(self@, key@),
            decreases self.members@.len() - i,
        {
            assert(self@.skip(i as int)[0] == self@[i as int]);
            assert(self@.skip(i as int).skip(1) =~= self@.skip(i + 1));
            if text::same(self.members[i].0.as_str(), key) {
                return Some(&self.members[i].1);
            }
            i = i + 1;
        }
        None
    }

    /// Sets `key` to `value`.
    pub fn insert(&mut self, key: String, value: JsonValue)
        ensures
            final(self)@ == with_member(old(self)@, key@, value@),
            ordered(final(self)@),
    {
        proof {
            use_type_invariant(&*self);
        }
        let ghost before = self@;
        let mut i: usize = 0;
        while i < self.members.len() && text::comes_before(self.members[i].0.as_str(), key.as_str())
            invariant
                i <= self.members@.len(),
                self@ == before,
                place_of(before, key@, i as int) == place_of(before, key@, 0),
            decreases self.members@.len() - i,
        {
            i = i + 1;
        }
        let mut members: Vec<(String, JsonValue)> = Vec::new();
        std::mem::swap(&mut members, &mut self.members);
        let ghost old_members = members@;
        let ghost ks = key@;
        let ghost vs = value@;
        if i < members.len() && text::same(members[i].0.as_str(), key.as_str()) {
            members.set(i, (key, value));
        } else {
            members.insert(i, (key, value));
        }
        proof {
            law_with_member_ordered(before, ks, vs);
            let r = JsonObject { members };
            assert(r@ =~= with_member(before, ks, vs));
        }
        self.members = members;
    }
}

impl Clone for JsonObject {
    fn clone(&self) -> (r: Self)
        ensures
            r@ == self@,
        decreases self, 0int,
    {
        proof {
            use_type_invariant(self);
        }
        let mut copy: Vec<(String, JsonValue)> = Vec::new();
        let mut i: usize = 0;
        while i < self.members.len()
            invariant
                i <= self.members.len(),
                copy.len() == i,
                forall|k: int|
                    0 <= k < i ==> (#[trigger] copy@[k]).0@ == self.members@[k].0@ && copy@[k].1@
                        == self.members@[k].1@,
            decreases self.members.len() - i,
        {
            let m = &self.members[i];
            assert(decreases_to!(*self => self.members));
            assert(decreases_to!(self.members@ => self.members@[i as int]));
            copy.push((m.0.clone(), m.1.clone()));
            i = i + 1;
        }
        proof {
            let r = JsonObject { members: copy };
            assert(r@ =~= self@);
        }
        JsonObject { members: copy }
    }
}

// ---------------------------------------------------------------------------
// Writing

/// The lower-case hexadecimal digit for `d`.
pub open spec fn hex_char(d: int) -> char {
    if d < 10 {
        (d + 48) as char
    } else {
        (d + 87) as char
    }
}

/// How the character `c` is written inside a JSON string.
pub open spec fn escape(c: char) -> Seq<char> {
    if c == '"' {
        seq!['\\', '"']
    } else if c == '\\' {
        seq!['\\', '\\']
    } else if c == '\n' {
        seq!['\\', 'n']
    } else if c == '\t' {
        seq!['\\', 't']
    } else if c == '\r' {
        seq!['\\', 'r']
    } else if c == '\u{8}' {
        seq!['\\', 'b']
    } else if c == '\u{c}' {
        seq!['\\', 'f']
    } else if (c as int) < 0x20 {
        seq!['\\', 'u', '0', '0', hex_char(c as int / 16), hex_char(c as int % 16)]
    } else {
        seq![c]
    }
}

/// How the characters `s` are written inside a JSON string.
pub open spec fn escaped(s: Seq<char>) -> Seq<char>
    decreases s.len(),
{
    if s.len() == 0 {
        seq![]
    } else {
        escape(s[0]) + escaped(s.skip(1))
    }
}

/// The JSON string for `s`.
pub open spec fn string_text(s: Seq<char>) -> Seq<char> {
    seq!['"'] + escaped(s) + seq!['"']
}

/// The JSON text of `v`.
pub open spec fn value_text(v: Json) -> Seq<char>
    decreases v, 1int,
{
    match v {
        Json::Null => seq!['n', 'u', 'l', 'l'],
        Json::Bool(b) => if b {
            seq!['t', 'r', 'u', 'e']
        } else {
            seq!['f', 'a', 'l', 's', 'e']
        },
        Json::Number(n) => text::signed_decimal(n),
        Json::Str(s) => string_text(s),
        Json::Arr(items) => seq!['['] + items_text(items, 0) + seq![']'],
        Json::Obj(m) => object_text(m),
    }
}

/// The JSON text of the object with the members `m`, in that order.
pub open spec fn object_text(m: Seq<(Seq<char>, Json)>) -> Seq<char>
    decreases m, m.len() + 1,
{
    seq!['{'] + members_text(m, 0) + seq!['}']
}

/// The items from the `i`-th on, with commas between them.
pub open spec fn items_text(items: Seq<Json>, i: int) -> Seq<char>
    decreases items, items.len() - i,
{
    if 0 <= i < items.len() {
        if i + 1 == items.len() {
            value_text(items[i])
        } else {
            value_text(items[i]) + seq![','] + items_text(items, i + 1)
        }
    } else {
        seq![]
    }
}

/// The text of the member `m`.
pub open spec fn member_text(m: (Seq<char>, Json)) -> Seq<char>
    decreases m, 0int,
{
    string_text(m.0) + seq![':'] + value_text(m.1)
}

/// The members from the `i`-th on, with commas between them.
pub open spec fn members_text(m: Seq<(Seq<char>, Json)>, i: int) -> Seq<char>
    decreases m, m.len() - i,
{
    if 0 <= i < m.len() {
        if i + 1 == m.len() {
            member_text(m[i])
        } else {
            member_text(m[i]) + seq![','] + members_text(m, i + 1)
        }
    } else {
        seq![]
    }
}

/// The lower-case hexadecimal digit for `d`.
pub fn hex_digit(d: u8) -> (c: char)
    requires
        d < 16,
    ensures
        c == hex_char(d as int),
{
    if d < 10 {
        (d + 48u8) as char
    } else {
        (d + 87u8) as char
    }
}

/// Appends `c` as it is written inside a JSON string.
fn push_escaped(out: &mut String, c: char)
    ensures
        final(out)@ == old(out)@ + escape(c),
{
    let ghost before = out@;
    if c == '"' {
        out.push('\\');
        out.push('"');
    } else if c == '\\' {
        out.push('\\');
        out.push('\\');
    } else if c == '\n' {
        out.push('\\');
        out.push('n');
    } else if c == '\t' {
        out.push('\\');
        out.push('t');
    } else if c == '\r' {
        out.push('\\');
        out.push('r');
    } else if c == '\u{8}' {
        out.push('\\');
        out.push('b');
    } else if c == '\u{c}' {
        out.push('\\');
        out.push('f');
    } else if (c as u32) < 0x20 {
        let n: u8 = (c as u32) as u8;
        out.push('\\');
        out.push('u');
        out.push('0');
        out.push('0');
        out.push(hex_digit(n / 16));
        out.push(hex_digit(n % 16));
    } else {
        out.push(c);
    }
    assert(out@ =~= before + escape(c));
}

/// The JSON string for `value`.
pub fn json_string(value: &str) -> (r: String)
    ensures
        r@ == string_text(value@),
{
    let v = text::chars_of(value);
    let mut out = String::new();
    out.push('"');
    let mut i: usize = 0;
    assert(v@.skip(0) =~= v@);
    assert(out@ + escaped(v@.skip(0)) =~= seq!['"'] + escaped(v@));
    while i < v.len()
        invariant
            i <= v@.len(),
            out@ + escaped(v@.skip(i as int)) == seq!['"'] + escaped(v@),
        decreases v@.len() - i,
    {
        let ghost before = out@;
        push_escaped(&mut out, v[i]);
        proof {
            assert(v@.skip(i as int).skip(1) =~= v@.skip(i + 1));
            assert(v@.skip(i as int)[0] == v@[i as int]);
            assert(out@ + escaped(v@.skip(i + 1)) =~= before + escaped(v@.skip(i as int)));
        }
        i = i + 1;
    }
    assert(v@.skip(i as int) =~= Seq::<char>::empty());
    assert(out@ =~= seq!['"'] + escaped(v@));
    out.push('"');
    assert(out@ =~= string_text(value@));
    out
}

/// The JSON text of the object `map`.
pub fn json_object(map: &JsonObject) -> (r: String)
    ensures
        r@ == object_text(map@),
        roundtrip::canonical(Json::Obj(map@)),
    decreases map,
{
    let ghost m = map@;
    proof {
        use_type_invariant(map);
    }
    let mut out = String::new();
    out.push('{');
    let mut i: usize = 0;
    assert(out@ + members_text(m, 0) =~= seq!['{'] + members_text(m, 0));
    while i < map.members.len()
        invariant
            i <= m.len(),
            m == map@,
            m.len() == map.members@.len(),
            forall|k: int| 0 <= k < i ==> roundtrip::canonical((#[trigger] m[k]).1),
            out@ + (if 0 < i < m.len() {
                seq![',']
            } else {
                seq![]
            }) + members_text(m, i as int) == seq!['{'] + members_text(m, 0),
        decreases m.len() - i,
    {
        let ghost before = out@;
        if i > 0 {
            out.push(',');
        }
        let member = &map.members[i];
        assert(m[i as int] == (member.0@, member.1@));
        assert(decreases_to!(*map => map.members));
        assert(decreases_to!(map.members@ => map.members@[i as int]));
        out.append(json_string(member.0.as_str()).as_str());
        out.push(':');
        out.append(json_value(&member.1).as_str());
        i = i + 1;
        proof {
            assert(out@ =~= before + (if 0 < i - 1 < m.len() {
                seq![',']
            } else {
                seq![]
            }) + member_text(m[i - 1]));
            assert(members_text(m, i - 1) =~= member_text(m[i - 1]) + (if i < m.len() {
                seq![',']
            } else {
                seq![]
            }) + members_text(m, i as int));
            assert(out@ + (if 0 < i < m.len() {
                seq![',']
            } else {
                seq![]
            }) + members_text(m, i as int) =~= before + (if 0 < i - 1 < m.len() {
                seq![',']
            } else {
                seq![]
            }) + members_text(m, i - 1));
        }
    }
    assert(out@ =~= seq!['{'] + members_text(m, 0));
    out.push('}');
    assert(out@ =~= object_text(m));
    out
}

/// The JSON text of `value`.
pub fn json_value(value: &JsonValue) -> (r: String)
    ensures
        r@ == value_text(value@),
        roundtrip::canonical(value@),
    decreases value,
{
    match value {
        JsonValue::Null => {
            let mut out = String::new();
            out.push('n');
            out.push('u');
            out.push('l');
            out.push('l');
            assert(out@ =~= value_text(value@));
            out
        },
        JsonValue::Bool(b) => {
            let mut out = String::new();
            if *b {
                out.push('t');
                out.push('r');
                out.push('u');
                out.push('e');
            } else {
                out.push('f');
                out.push('a');
                out.push('l');
                out.push('s');
                out.push('e');
            }
            assert(out@ =~= value_text(value@));
            out
        },
        JsonValue::Number(n) => text::signed_decimal_string(*n),
        JsonValue::String(s) => json_string(s.as_str()),
        JsonValue::Array(items) => {
            let ghost m = value@->Arr_0;
            let mut out = String::new();
            out.push('[');
            let mut i: usize = 0;
            assert(out@ + items_text(m, 0) =~= seq!['['] + items_text(m, 0));
            while i < items.len()
                invariant
                    i <= m.len(),
                    value matches JsonValue::Array(a) && a == items,
                    value@ == Json::Arr(m),
                    m.len() == items@.len(),
                    forall|k: int| 0 <= k < i ==> roundtrip::canonical(#[trigger] m[k]),
                    out@ + (if 0 < i < m.len() {
                        seq![',']
                    } else {
                        seq![]
                    }) + items_text(m, i as int) == seq!['['] + items_text(m, 0),
                decreases m.len() - i,
            {
                let ghost before = out@;
                if i > 0 {
                    out.push(',');
                }
                assert(m[i as int] == items@[i as int]@);
                assert(decreases_to!(*value => *items));
                assert(decreases_to!(items@ => items@[i as int]));
                out.append(json_value(&items[i]).as_str());
                i = i + 1;
                proof {
                    assert(out@ + (if 0 < i < m.len() {
                        seq![',']
                    } else {
                        seq![]
                    }) + items_text(m, i as int) =~= before + (if 0 < i - 1 < m.len() {
                        seq![',']
                    } else {
                        seq![]
                    }) + items_text(m, i - 1));
                }
            }
            assert(out@ =~= seq!['['] + items_text(m, 0));
            out.push(']');
            assert(out@ =~= value_text(value@));
            out
        },
        JsonValue::Object(o) => json_object(o),
    }
}

} // verus!
