//! Events: the append-only records that issues and pull requests are made of,
//! their wire form, and the states that a chain of them folds to.

use crate::json;
use crate::parser;
use crate::roundtrip;
use crate::text;
use crate::uuid;
use vstd::prelude::*;

pub use crate::calendar::{civil_from_days, format_rfc3339_system_time, format_rfc3339_utc, rfc3339_utc_now};
pub use crate::json::{JsonObject, JsonValue};
pub use crate::parser::parse_json_value;
pub use crate::uuid::{is_uuid_v4, uuid_v4_from_seed};
pub use crate::worktree::worktree_registered_path;

verus! {

// ---------------------------------------------------------------------------
// Kinds

/// What an event records.
#[derive(Debug, Clone, Copy, PartialEq, Eq, Structural)]
pub enum EventKind {
    IssueCreated,
    IssueComment,
    IssueClose,
    IssueReopen,
    PrCreated,
    PrComment,
    PrReview,
    PrMerge,
    CiCheck,
}

/// The wire name of a kind.
pub open spec fn kind_text(kind: EventKind) -> Seq<char> {
    match kind {
        EventKind::IssueCreated => "issue.created"@,
        EventKind::IssueComment => "issue.comment"@,
        EventKind::IssueClose => "issue.close"@,
        EventKind::IssueReopen => "issue.reopen"@,
        EventKind::PrCreated => "pr.created"@,
        EventKind::PrComment => "pr.comment"@,
        EventKind::PrReview => "pr.review"@,
        EventKind::PrMerge => "pr.merge"@,
        EventKind::CiCheck => "ci.check"@,
    }
}

/// The kind with the wire name `s`.
pub open spec fn kind_of(s: Seq<char>) -> Option<EventKind> {
    if s == "issue.created"@ {
        Some(EventKind::IssueCreated)
    } else if s == "issue.comment"@ {
        Some(EventKind::IssueComment)
    } else if s == "issue.close"@ {
        Some(EventKind::IssueClose)
    } else if s == "issue.reopen"@ {
        Some(EventKind::IssueReopen)
    } else if s == "pr.created"@ {
        Some(EventKind::PrCreated)
    } else if s == "pr.comment"@ {
        Some(EventKind::PrComment)
    } else if s == "pr.review"@ {
        Some(EventKind::PrReview)
    } else if s == "pr.merge"@ {
        Some(EventKind::PrMerge)
    } else if s == "ci.check"@ {
        Some(EventKind::CiCheck)
    } else {
        None
    }
}

/// A kind reads back from its wire name.
pub proof fn law_kind_reads_back(kind: EventKind)
    ensures
        kind_of(kind_text(kind)) == Some(kind),
{
    reveal_strlit("issue.created");
    reveal_strlit("issue.comment");
    reveal_strlit("issue.close");
    reveal_strlit("issue.reopen");
    reveal_strlit("pr.created");
    reveal_strlit("pr.comment");
    reveal_strlit("pr.review");
    reveal_strlit("pr.merge");
    reveal_strlit("ci.check");
    assert("issue.created"@.len() == 13 && "issue.comment"@.len() == 13 && "issue.close"@.len()
        == 11 && "issue.reopen"@.len() == 12 && "pr.created"@.len() == 10 && "pr.comment"@.len()
        == 10 && "pr.review"@.len() == 9 && "pr.merge"@.len() == 8 && "ci.check"@.len() == 8);
    assert("issue.created"@[7] != "issue.comment"@[7]);
    assert("pr.created"@[4] != "pr.comment"@[4]);
    assert("pr.merge"@[0] != "ci.check"@[0]);
}

/// A wire name belongs to the kind that it reads as.
pub proof fn law_kind_name(s: Seq<char>)
    ensures
        kind_of(s) matches Some(kind) ==> kind_text(kind) == s,
{
}

impl EventKind {
    /// The wire name.
    pub fn as_str(self) -> (r: &'static str)
        ensures
            r@ == kind_text(self),
    {
        match self {
            EventKind::IssueCreated => "issue.created",
            EventKind::IssueComment => "issue.comment",
            EventKind::IssueClose => "issue.close",
            EventKind::IssueReopen => "issue.reopen",
            EventKind::PrCreated => "pr.created",
            EventKind::PrComment => "pr.comment",
            EventKind::PrReview => "pr.review",
            EventKind::PrMerge => "pr.merge",
            EventKind::CiCheck => "ci.check",
        }
    }

    /// The kind with the wire name `s`.
    pub fn from_wire(s: &str) -> (r: Option<EventKind>)
        ensures
            r == kind_of(s@),
    {
        if text::same(s, "issue.created") {
            Some(EventKind::IssueCreated)
        } else if text::same(s, "issue.comment") {
            Some(EventKind::IssueComment)
        } else if text::same(s, "issue.close") {
            Some(EventKind::IssueClose)
        } else if text::same(s, "issue.reopen") {
            Some(EventKind::IssueReopen)
        } else if text::same(s, "pr.created") {
            Some(EventKind::PrCreated)
        } else if text::same(s, "pr.comment") {
            Some(EventKind::PrComment)
        } else if text::same(s, "pr.review") {
            Some(EventKind::PrReview)
        } else if text::same(s, "pr.merge") {
            Some(EventKind::PrMerge)
        } else if text::same(s, "ci.check") {
            Some(EventKind::CiCheck)
        } else {
            None
        }
    }
}

impl std::str::FromStr for EventKind {
    type Err = ();

    fn from_str(s: &str) -> (r: Result<Self, ()>)
        ensures
            r == (match kind_of(s@) {
                Some(kind) => Ok(kind),
                None => Err(()),
            }),
    {
        match EventKind::from_wire(s) {
            Some(kind) => Ok(kind),
            None => Err(()),
        }
    }
}

// ---------------------------------------------------------------------------
// Events

/// An event as mathematics sees it.
#[verifier::ext_equal]
pub struct EventModel {
    pub v: int,
    pub id: Seq<char>,
    pub kind: EventKind,
    pub entity: Seq<char>,
    pub entity_id: int,
    pub ts: Seq<char>,
    pub actor: Seq<char>,
    pub body: Seq<(Seq<char>, json::Json)>,
}

/// One event of a chain.
#[derive(Debug, PartialEq, Eq)]
pub struct Event {
    pub v: u32,
    pub id: String,
    pub kind: EventKind,
    pub entity: String,
    pub entity_id: u64,
    pub ts: String,
    pub actor: String,
    pub body: JsonObject,
}

impl View for Event {
    type V = EventModel;

    open spec fn view(&self) -> EventModel {
        EventModel {
            v: self.v as int,
            id: self.id@,
            kind: self.kind,
            entity: self.entity@,
            entity_id: self.entity_id as int,
            ts: self.ts@,
            actor: self.actor@,
            body: self.body@,
        }
    }
}

impl Clone for Event {
    fn clone(&self) -> (r: Self)
        ensures
            r@ == self@,
    {
        Event {
            v: self.v,
            id: self.id.clone(),
            kind: self.kind,
            entity: self.entity.clone(),
            entity_id: self.entity_id,
            ts: self.ts.clone(),
            actor: self.actor.clone(),
            body: self.body.clone(),
        }
    }
}

/// The members of the wire form of `e`, in the order in which they are written.
pub open spec fn event_members(e: EventModel) -> Seq<(Seq<char>, json::Json)> {
    seq![
        ("v"@, json::Json::Number(e.v)),
        ("id"@, json::Json::Str(e.id)),
        ("kind"@, json::Json::Str(kind_text(e.kind))),
        ("entity"@, json::Json::Str(e.entity)),
        ("entity_id"@, json::Json::Number(e.entity_id)),
        ("ts"@, json::Json::Str(e.ts)),
        ("actor"@, json::Json::Str(e.actor)),
        ("body"@, json::Json::Obj(e.body)),
    ]
}

/// The wire form of `e`.
pub open spec fn event_text(e: EventModel) -> Seq<char> {
    json::object_text(event_members(e))
}

/// The text that `key` has among the members `m`, where it has one.
pub open spec fn text_field(m: Seq<(Seq<char>, json::Json)>, key: Seq<char>) -> Option<Seq<char>> {
    match json::lookup(m, key) {
        Some(json::Json::Str(s)) => Some(s),
        _ => None,
    }
}

/// The number that `key` has among the members `m`, where it has one that is
/// not below zero.
pub open spec fn number_field(m: Seq<(Seq<char>, json::Json)>, key: Seq<char>) -> Option<int> {
    match json::lookup(m, key) {
        Some(json::Json::Number(n)) => if n >= 0 {
            Some(n)
        } else {
            None
        },
        _ => None,
    }
}

/// The event that the members `m` describe, where they describe one: schema
/// version 1, a UUID as id, a known kind, and an object as body.
pub open spec fn event_of_members(m: Seq<(Seq<char>, json::Json)>) -> Option<EventModel> {
    match (
        text_field(m, "id"@),
        text_field(m, "kind"@),
        text_field(m, "entity"@),
        number_field(m, "entity_id"@),
        text_field(m, "ts"@),
        text_field(m, "actor"@),
        json::lookup(m, "body"@),
    ) {
        (
            Some(id),
            Some(kind),
            Some(entity),
            Some(entity_id),
            Some(ts),
            Some(actor),
            Some(json::Json::Obj(body)),
        ) => if number_field(m, "v"@) == Some(1int) && uuid::uuid_v4_shape(id) && kind_of(
            kind,
        ) is Some {
            Some(
                EventModel {
                    v: 1,
                    id,
                    kind: kind_of(kind).unwrap(),
                    entity,
                    entity_id,
                    ts,
                    actor,
                    body,
                },
            )
        } else {
            None
        },
        _ => None,
    }
}

/// The event that the text `s` describes, where it describes one.
pub open spec fn event_of_text(s: Seq<char>) -> Option<EventModel> {
    match parser::parse(s) {
        Some(json::Json::Obj(m)) => event_of_members(m),
        _ => None,
    }
}

/// The text of `key`, where it has one.
fn str_field(m: &JsonObject, key: &str) -> (r: Option<String>)
    ensures
        match r {
            Some(s) => text_field(m@, key@) == Some(s@),
            None => text_field(m@, key@) is None,
        },
{
    match m.get(key) {
        Some(v) => match v.as_str() {
            Some(s) => Some(s.to_owned()),
            None => None,
        },
        None => None,
    }
}

/// The number of `key`, where it has one that is not below zero.
fn u64_field(m: &JsonObject, key: &str) -> (r: Option<u64>)
    ensures
        match r {
            Some(n) => number_field(m@, key@) == Some(n as int),
            None => number_field(m@, key@) is None,
        },
{
    match m.get(key) {
        Some(v) => v.as_u64(),
        None => None,
    }
}

/// Appends the `k`-th of the members `m` to an object that is being written,
/// and a comma where it is not the last.
fn push_member(
    out: &mut String,
    key: &str,
    value: &str,
    last: bool,
    Ghost(m): Ghost<Seq<(Seq<char>, json::Json)>>,
    Ghost(k): Ghost<int>,
    Ghost(whole): Ghost<Seq<char>>,
)
    requires
        0 <= k < m.len(),
        last == (k + 1 == m.len()),
        m[k].0 == key@,
        value@ == json::value_text(m[k].1),
        old(out)@ + json::members_text(m, k) == whole,
    ensures
        final(out)@ + json::members_text(m, k + 1) == whole,
{
    let ghost before = out@;
    out.append(json::json_string(key).as_str());
    out.push(':');
    out.append(value);
    assert(out@ =~= before + json::member_text(m[k]));
    if !last {
        out.push(',');
    }
    assert(out@ + json::members_text(m, k + 1) =~= before + json::members_text(m, k));
}

/// The last value of `key` among the members from the `n`-th on, or else `before`.
spec fn last_of(
    m: Seq<(Seq<char>, json::Json)>,
    n: int,
    key: Seq<char>,
    before: Option<json::Json>,
) -> Option<json::Json>
    decreases m.len() - n,
{
    if 0 <= n < m.len() {
        last_of(
            m,
            n + 1,
            key,
            if m[n].0 == key {
                Some(m[n].1)
            } else {
                before
            },
        )
    } else {
        before
    }
}

proof fn lemma_added_lookup(
    done: Seq<(Seq<char>, json::Json)>,
    m: Seq<(Seq<char>, json::Json)>,
    n: int,
    key: Seq<char>,
)
    requires
        json::ordered(done),
        0 <= n <= m.len(),
    ensures
        json::lookup(roundtrip::add_members(done, m, n), key) == last_of(
            m,
            n,
            key,
            json::lookup(done, key),
        ),
    decreases m.len() - n,
{
    if n < m.len() {
        json::law_with_member_ordered(done, m[n].0, m[n].1);
        json::law_with_member_lookup(done, m[n].0, m[n].1, key);
        lemma_added_lookup(json::with_member(done, m[n].0, m[n].1), m, n + 1, key);
    }
}

proof fn lemma_field(e: EventModel, key: Seq<char>)
    ensures
        json::lookup(roundtrip::add_members(seq![], event_members(e), 0), key) == last_of(
            event_members(e),
            0,
            key,
            None,
        ),
{
    lemma_added_lookup(seq![], event_members(e), 0, key);
}

proof fn lemma_fields(e: EventModel)
    ensures
        ({
            let m = roundtrip::add_members(seq![], event_members(e), 0);
            &&& json::lookup(m, "v"@) == Some(json::Json::Number(e.v))
            &&& json::lookup(m, "id"@) == Some(json::Json::Str(e.id))
            &&& json::lookup(m, "kind"@) == Some(json::Json::Str(kind_text(e.kind)))
            &&& json::lookup(m, "entity"@) == Some(json::Json::Str(e.entity))
            &&& json::lookup(m, "entity_id"@) == Some(json::Json::Number(e.entity_id))
            &&& json::lookup(m, "ts"@) == Some(json::Json::Str(e.ts))
            &&& json::lookup(m, "actor"@) == Some(json::Json::Str(e.actor))
            &&& json::lookup(m, "body"@) == Some(json::Json::Obj(e.body))
        }),
{
    reveal_strlit("v");
    reveal_strlit("id");
    reveal_strlit("kind");
    reveal_strlit("entity");
    reveal_strlit("entity_id");
    reveal_strlit("ts");
    reveal_strlit("actor");
    reveal_strlit("body");
    assert("v"@.len() == 1 && "id"@.len() == 2 && "kind"@.len() == 4 && "entity"@.len() == 6
        && "entity_id"@.len() == 9 && "ts"@.len() == 2 && "actor"@.len() == 5 && "body"@.len() == 4);
    assert("id"@[0] != "ts"@[0]);
    assert("kind"@[0] != "body"@[0]);
    let m = event_members(e);
    assert(m.len() == 8);
    lemma_field(e, "v"@);
    lemma_field(e, "id"@);
    lemma_field(e, "kind"@);
    lemma_field(e, "entity"@);
    lemma_field(e, "entity_id"@);
    lemma_field(e, "ts"@);
    lemma_field(e, "actor"@);
    lemma_field(e, "body"@);
    reveal_with_fuel(last_of, 9);
}

/// An event reads back from its wire form, field by field: every event of
/// schema version 1 whose id is a UUID and whose number fits in the number type
/// of the wire form.
pub proof fn law_event_reads_back(e: EventModel)
    requires
        e.v == 1,
        uuid::uuid_v4_shape(e.id),
        0 <= e.entity_id <= i64::MAX,
        roundtrip::canonical(json::Json::Obj(e.body)),
    ensures
        event_of_text(event_text(e)) == Some(e),
{
    law_event_reads_back_in_space(e, seq![], seq![]);
    assert(seq![] + event_text(e) + seq![] =~= event_text(e));
}

/// The wire form of an event holds no control character below U+0020, so it is one
/// line.
pub proof fn law_event_text_has_no_controls(e: EventModel)
    ensures
        roundtrip::no_controls(event_text(e)),
{
    roundtrip::law_text_has_no_controls(json::Json::Obj(event_members(e)));
}

/// An event reads back from its wire form, whatever white space stands around it.
pub proof fn law_event_reads_back_in_space(e: EventModel, before: Seq<char>, after: Seq<char>)
    requires
        e.v == 1,
        uuid::uuid_v4_shape(e.id),
        0 <= e.entity_id <= i64::MAX,
        roundtrip::canonical(json::Json::Obj(e.body)),
        roundtrip::all_space(before),
        roundtrip::all_space(after),
    ensures
        event_of_text(before + event_text(e) + after) == Some(e),
{
    let m = event_members(e);
    let t = event_text(e);
    let s = before + t + after;
    assert forall|k: int| 0 <= k < m.len() implies roundtrip::canonical((#[trigger] m[k]).1) by {
    }
    assert(roundtrip::stands_at(s, before.len() as int, t));
    roundtrip::lemma_object(s, before.len() as int, m);
    assert(t[0] == '{');
    roundtrip::lemma_parse_in_space(
        before,
        t,
        after,
        json::Json::Obj(roundtrip::add_members(seq![], m, 0)),
    );
    lemma_fields(e);
    law_kind_reads_back(e.kind);
}

/// Of what is written as an event, only schema version 1 with the id of a UUID and a
/// number that is not negative reads back; anything else is refused.
pub proof fn law_other_events_are_refused(e: EventModel)
    requires
        i64::MIN <= e.v <= i64::MAX,
        i64::MIN <= e.entity_id <= i64::MAX,
        roundtrip::canonical(json::Json::Obj(e.body)),
        e.v != 1 || e.entity_id < 0 || !uuid::uuid_v4_shape(e.id),
    ensures
        event_of_text(event_text(e)) is None,
{
    let m = event_members(e);
    let t = event_text(e);
    let s = seq![] + t + seq![];
    assert(s =~= t);
    assert forall|k: int| 0 <= k < m.len() implies roundtrip::canonical((#[trigger] m[k]).1) by {
    }
    assert(roundtrip::stands_at(s, 0, t));
    roundtrip::lemma_object(s, 0, m);
    assert(t[0] == '{');
    roundtrip::lemma_parse_in_space(
        seq![],
        t,
        seq![],
        json::Json::Obj(roundtrip::add_members(seq![], m, 0)),
    );
    lemma_fields(e);
}

/// Every field of an event that was read stands in the text it was read from, under its
/// own name.
pub proof fn law_read_event_was_written(s: Seq<char>)
    requires
        event_of_text(s) is Some,
    ensures
        ({
            let e = event_of_text(s).unwrap();
            &&& uuid::uuid_v4_shape(e.id)
            &&& e.v == 1
            &&& e.entity_id >= 0
            &&& exists|m: Seq<(Seq<char>, json::Json)>|
                {
                    &&& parser::parse(s) == Some(json::Json::Obj(m))
                    &&& #[trigger] json::lookup(m, "v"@) == Some(json::Json::Number(1))
                    &&& json::lookup(m, "id"@) == Some(json::Json::Str(e.id))
                    &&& json::lookup(m, "kind"@) == Some(json::Json::Str(kind_text(e.kind)))
                    &&& json::lookup(m, "entity"@) == Some(json::Json::Str(e.entity))
                    &&& json::lookup(m, "entity_id"@) == Some(json::Json::Number(e.entity_id))
                    &&& json::lookup(m, "ts"@) == Some(json::Json::Str(e.ts))
                    &&& json::lookup(m, "actor"@) == Some(json::Json::Str(e.actor))
                    &&& json::lookup(m, "body"@) == Some(json::Json::Obj(e.body))
                }
        }),
{
    let e = event_of_text(s).unwrap();
    let m = parser::parse(s).unwrap()->Obj_0;
    law_kind_name(text_field(m, "kind"@).unwrap());
    assert(json::lookup(m, "v"@) == Some(json::Json::Number(1)));
}

impl Event {
    /// An event made at a given second from a given seed.
    pub fn from_seed(
        seed: u64,
        second: i64,
        kind: EventKind,
        entity: &str,
        entity_id: u64,
        actor: &str,
        body: JsonObject,
    ) -> (r: Self)
        ensures
            r@ == (EventModel {
                v: 1,
                id: uuid::id_text(seed, 16),
                kind,
                entity: entity@,
                entity_id: entity_id as int,
                ts: crate::calendar::rfc3339(second as int),
                actor: actor@,
                body: body@,
            }),
            uuid::uuid_v4_shape(r.id@),
    {
        Event {
            v: 1,
            id: uuid::uuid_v4_from_seed(seed),
            kind,
            entity: entity.to_owned(),
            entity_id,
            ts: crate::calendar::format_rfc3339_utc(second),
            actor: actor.to_owned(),
            body,
        }
    }

    /// An event made now, with an id of the shape of a UUID taken from the clock.
    /// The clock is no source of cryptographic randomness.
    pub fn new(kind: EventKind, entity: &str, entity_id: u64, actor: &str, body: JsonObject) -> (r:
        Self)
        ensures
            r.v == 1,
            r.kind == kind,
            r.entity@ == entity@,
            r.entity_id == entity_id,
            r.actor@ == actor@,
            r.body@ == body@,
            uuid::uuid_v4_shape(r.id@),
            exists|t: std::time::SystemTime|
                r.id@ == uuid::id_text(
                    crate::calendar::nanos_of(#[trigger] crate::calendar::epoch_offset(t)) as u64
                        ^ entity_id,
                    16,
                ),
            exists|t: std::time::SystemTime|
                r.ts@ == crate::calendar::rfc3339(
                    crate::calendar::second_of(#[trigger] crate::calendar::epoch_offset(t)),
                ),
    {
        let seed: u64 = crate::calendar::clock_nanos(std::time::SystemTime::now()) ^ entity_id;
        let second = crate::calendar::clock_second(std::time::SystemTime::now());
        Event::from_seed(seed, second, kind, entity, entity_id, actor, body)
    }

    /// An event made now, with an id that the caller answers for. `None` where
    /// the id has not the shape of a version-4 UUID.
    pub fn new_with_id(
        id: &str,
        kind: EventKind,
        entity: &str,
        entity_id: u64,
        actor: &str,
        body: JsonObject,
    ) -> (r: Option<Self>)
        ensures
            match r {
                Some(e) => {
                    &&& uuid::uuid_v4_shape(id@)
                    &&& e.v == 1
                    &&& e.id@ == id@
                    &&& e.kind == kind
                    &&& e.entity@ == entity@
                    &&& e.entity_id == entity_id
                    &&& e.actor@ == actor@
                    &&& e.body@ == body@
                    &&& exists|t: std::time::SystemTime|
                        e.ts@ == crate::calendar::rfc3339(
                            crate::calendar::second_of(#[trigger] crate::calendar::epoch_offset(t)),
                        )
                },
                None => !uuid::uuid_v4_shape(id@),
            },
    {
        if !uuid::is_uuid_v4(id) {
            return None;
        }
        Some(
            Event {
                v: 1,
                id: id.to_owned(),
                kind,
                entity: entity.to_owned(),
                entity_id,
                ts: crate::calendar::rfc3339_utc_now(),
                actor: actor.to_owned(),
                body,
            },
        )
    }

    /// The event that `input` describes, where it is the wire form of one.
    pub fn from_json(input: &str) -> (r: Option<Self>)
        ensures
            match r {
                Some(e) => event_of_text(input@) == Some(e@),
                None => event_of_text(input@) is None,
            },
    {
        let root = match parser::parse_json_value(input) {
            Some(x) => x,
            None => {
                return None;
            },
        };
        let object = match root.as_object() {
            Some(x) => x,
            None => {
                return None;
            },
        };
        match u64_field(object, "v") {
            Some(v) => if v != 1 {
                return None;
            },
            None => {
                return None;
            },
        }
        match (
            str_field(object, "id"),
            str_field(object, "kind"),
            str_field(object, "entity"),
            u64_field(object, "entity_id"),
            str_field(object, "ts"),
            str_field(object, "actor"),
            object.get("body"),
        ) {
            (
                Some(id),
                Some(kind_name),
                Some(entity),
                Some(entity_id),
                Some(ts),
                Some(actor),
                Some(JsonValue::Object(body)),
            ) => {
                if !uuid::is_uuid_v4(id.as_str()) {
                    return None;
                }
                match EventKind::from_wire(kind_name.as_str()) {
                    Some(kind) => Some(
                        Event { v: 1, id, kind, entity, entity_id, ts, actor, body: body.clone() },
                    ),
                    None => None,
                }
            },
            _ => None,
        }
    }

    /// The wire form. An event of schema version 1 reads back from it, as long as
    /// its id is a UUID and its number fits in the number type of the wire form.
    pub fn to_json(&self) -> (r: String)
        ensures
            r@ == event_text(self@),
            self.v == 1 && uuid::uuid_v4_shape(self.id@) && self.entity_id <= i64::MAX
                ==> event_of_text(r@) == Some(self@),
    {
        let ghost m = event_members(self@);
        let mut out = String::new();
        out.push('{');
        let ghost whole = out@ + json::members_text(m, 0);
        push_member(
            &mut out,
            "v",
            text::decimal_string(self.v as u64).as_str(),
            false,
            Ghost(m),
            Ghost(0),
            Ghost(whole),
        );
        push_member(
            &mut out,
            "id",
            json::json_string(self.id.as_str()).as_str(),
            false,
            Ghost(m),
            Ghost(1),
            Ghost(whole),
        );
        push_member(
            &mut out,
            "kind",
            json::json_string(self.kind.as_str()).as_str(),
            false,
            Ghost(m),
            Ghost(2),
            Ghost(whole),
        );
        push_member(
            &mut out,
            "entity",
            json::json_string(self.entity.as_str()).as_str(),
            false,
            Ghost(m),
            Ghost(3),
            Ghost(whole),
        );
        push_member(
            &mut out,
            "entity_id",
            text::decimal_string(self.entity_id).as_str(),
            false,
            Ghost(m),
            Ghost(4),
            Ghost(whole),
        );
        push_member(
            &mut out,
            "ts",
            json::json_string(self.ts.as_str()).as_str(),
            false,
            Ghost(m),
            Ghost(5),
            Ghost(whole),
        );
        push_member(
            &mut out,
            "actor",
            json::json_string(self.actor.as_str()).as_str(),
            false,
            Ghost(m),
            Ghost(6),
            Ghost(whole),
        );
        push_member(
            &mut out,
            "body",
            json::json_object(&self.body).as_str(),
            true,
            Ghost(m),
            Ghost(7),
            Ghost(whole),
        );
        assert(out@ =~= whole);
        out.push('}');
        proof {
            assert(out@ =~= event_text(self@));
            if self.v == 1 && uuid::uuid_v4_shape(self.id@) && self.entity_id <= i64::MAX {
                law_event_reads_back(self@);
            }
        }
        out
    }
}

// ---------------------------------------------------------------------------
// States

/// What an optional string holds.
pub open spec fn opt_text(o: Option<String>) -> Option<Seq<char>> {
    match o {
        Some(s) => Some(s@),
        None => None,
    }
}

/// What the strings of a list hold.
pub open spec fn texts(v: Seq<String>) -> Seq<Seq<char>> {
    v.map_values(|s: String| s@)
}

/// The state of an issue as mathematics sees it.
#[verifier::ext_equal]
pub struct IssueModel {
    pub id: int,
    pub title: Option<Seq<char>>,
    pub description: Option<Seq<char>>,
    pub labels: Seq<Seq<char>>,
    pub comments: Seq<Seq<char>>,
    pub open: bool,
}

/// The state of an issue.
#[derive(Debug, Clone, PartialEq, Eq)]
pub struct IssueState {
    pub id: u64,
    pub title: Option<String>,
    pub description: Option<String>,
    pub labels: Vec<String>,
    pub comments: Vec<String>,
    pub open: bool,
}

impl View for IssueState {
    type V = IssueModel;

    open spec fn view(&self) -> IssueModel {
        IssueModel {
            id: self.id as int,
            title: opt_text(self.title),
            description: opt_text(self.description),
            labels: texts(self.labels@),
            comments: texts(self.comments@),
            open: self.open,
        }
    }
}

/// The state of a pull request as mathematics sees it.
#[verifier::ext_equal]
pub struct PrModel {
    pub id: int,
    pub title: Option<Seq<char>>,
    pub description: Option<Seq<char>>,
    pub labels: Seq<Seq<char>>,
    pub source_ref: Option<Seq<char>>,
    pub base_ref: Option<Seq<char>>,
    pub source_head: Option<Seq<char>>,
    pub base_head: Option<Seq<char>>,
    pub merge_base: Option<Seq<char>>,
    pub comments: Seq<Seq<char>>,
    pub effective_decision: Option<Seq<char>>,
    pub merge_result: Option<Seq<char>>,
    pub ci_status: Option<Seq<char>>,
    pub ci_plan: Option<Seq<char>>,
    pub ci_actor: Option<Seq<char>>,
    pub ci_ts: Option<Seq<char>>,
}

/// The state of a pull request.
#[derive(Debug, Clone, PartialEq, Eq)]
pub struct PrState {
    pub id: u64,
    pub title: Option<String>,
    pub description: Option<String>,
    pub labels: Vec<String>,
    pub source_ref: Option<String>,
    pub base_ref: Option<String>,
    pub source_head: Option<String>,
    pub base_head: Option<String>,
    pub merge_base: Option<String>,
    pub comments: Vec<String>,
    pub effective_decision: Option<String>,
    pub merge_result: Option<String>,
    /// The status of the latest CI check: `success`, `failed` or `pending`.
    pub ci_status: Option<String>,
    /// The plan that the latest CI check ran.
    pub ci_plan: Option<String>,
    /// Who recorded the latest CI check.
    pub ci_actor: Option<String>,
    /// When the latest CI check was recorded.
    pub ci_ts: Option<String>,
}

impl View for PrState {
    type V = PrModel;

    open spec fn view(&self) -> PrModel {
        PrModel {
            id: self.id as int,
            title: opt_text(self.title),
            description: opt_text(self.description),
            labels: texts(self.labels@),
            source_ref: opt_text(self.source_ref),
            base_ref: opt_text(self.base_ref),
            source_head: opt_text(self.source_head),
            base_head: opt_text(self.base_head),
            merge_base: opt_text(self.merge_base),
            comments: texts(self.comments@),
            effective_decision: opt_text(self.effective_decision),
            merge_result: opt_text(self.merge_result),
            ci_status: opt_text(self.ci_status),
            ci_plan: opt_text(self.ci_plan),
            ci_actor: opt_text(self.ci_actor),
            ci_ts: opt_text(self.ci_ts),
        }
    }
}

/// What a chain of events amounts to, as mathematics sees it.
#[verifier::ext_equal]
pub struct FoldModel {
    pub issue: IssueModel,
    pub pr: PrModel,
}

/// What a chain of events amounts to.
#[derive(Debug, Clone, PartialEq, Eq)]
pub struct FoldState {
    pub issue: IssueState,
    pub pr: PrState,
}

impl View for FoldState {
    type V = FoldModel;

    open spec fn view(&self) -> FoldModel {
        FoldModel { issue: self.issue@, pr: self.pr@ }
    }
}

/// An issue of which nothing is recorded.
pub open spec fn no_issue() -> IssueModel {
    IssueModel {
        id: 0,
        title: None,
        description: None,
        labels: seq![],
        comments: seq![],
        open: false,
    }
}

/// A pull request of which nothing is recorded.
pub open spec fn no_pr() -> PrModel {
    PrModel {
        id: 0,
        title: None,
        description: None,
        labels: seq![],
        source_ref: None,
        base_ref: None,
        source_head: None,
        base_head: None,
        merge_base: None,
        comments: seq![],
        effective_decision: None,
        merge_result: None,
        ci_status: None,
        ci_plan: None,
        ci_actor: None,
        ci_ts: None,
    }
}

/// What no events amount to.
pub open spec fn no_events() -> FoldModel {
    FoldModel { issue: no_issue(), pr: no_pr() }
}

impl Default for IssueState {
    fn default() -> (r: Self)
        ensures
            r@ == no_issue(),
    {
        let r = IssueState {
            id: 0,
            title: None,
            description: None,
            labels: Vec::new(),
            comments: Vec::new(),
            open: false,
        };
        assert(r@ =~= no_issue());
        r
    }
}

impl Default for PrState {
    fn default() -> (r: Self)
        ensures
            r@ == no_pr(),
    {
        let r = PrState {
            id: 0,
            title: None,
            description: None,
            labels: Vec::new(),
            source_ref: None,
            base_ref: None,
            source_head: None,
            base_head: None,
            merge_base: None,
            comments: Vec::new(),
            effective_decision: None,
            merge_result: None,
            ci_status: None,
            ci_plan: None,
            ci_actor: None,
            ci_ts: None,
        };
        assert(r@ =~= no_pr());
        r
    }
}

impl Default for FoldState {
    fn default() -> (r: Self)
        ensures
            r@ == no_events(),
    {
        FoldState { issue: IssueState::default(), pr: PrState::default() }
    }
}

// ---------------------------------------------------------------------------
// Labels

/// The strings among the items, in their order.
pub open spec fn strings_of(items: Seq<json::Json>) -> Seq<Seq<char>>
    decreases items.len(),
{
    if items.len() == 0 {
        seq![]
    } else {
        match items.last() {
            json::Json::Str(s) => strings_of(items.drop_last()).push(s),
            _ => strings_of(items.drop_last()),
        }
    }
}

/// The labels that an event body names: the strings of its `labels` array. A
/// body without such an array names none.
pub open spec fn labels_of(body: Seq<(Seq<char>, json::Json)>) -> Seq<Seq<char>> {
    match json::lookup(body, "labels"@) {
        Some(json::Json::Arr(items)) => strings_of(items),
        _ => seq![],
    }
}

/// The JSON value for a list of labels.
pub open spec fn label_array(labels: Seq<Seq<char>>) -> json::Json {
    json::Json::Arr(labels.map_values(|s: Seq<char>| json::Json::Str(s)))
}

/// A body with a list of labels names these labels.
pub proof fn law_labels_read_back(
    body: Seq<(Seq<char>, json::Json)>,
    labels: Seq<Seq<char>>,
)
    requires
        json::lookup(body, "labels"@) == Some(label_array(labels)),
    ensures
        labels_of(body) == labels,
{
    lemma_strings_of(labels);
}

proof fn lemma_strings_of(labels: Seq<Seq<char>>)
    ensures
        strings_of(labels.map_values(|s: Seq<char>| json::Json::Str(s))) == labels,
    decreases labels.len(),
{
    let items = labels.map_values(|s: Seq<char>| json::Json::Str(s));
    if labels.len() > 0 {
        lemma_strings_of(labels.drop_last());
        assert(items.drop_last() =~= labels.drop_last().map_values(
            |s: Seq<char>| json::Json::Str(s),
        ));
        assert(labels.drop_last().push(labels.last()) =~= labels);
    } else {
        assert(labels =~= seq![]);
    }
}

/// The labels that an event body names.
pub fn labels_from(body: &JsonObject) -> (r: Vec<String>)
    ensures
        texts(r@) == labels_of(body@),
{
    let mut out: Vec<String> = Vec::new();
    assert(texts(out@) =~= seq![]);
    match body.get("labels") {
        Some(value) => {
            match value {
                JsonValue::Array(items) => {
                    let ghost model = value@->Arr_0;
                    assert(model.take(0) =~= seq![]);
                    let mut i: usize = 0;
                    while i < items.len()
                        invariant
                            i <= items.len(),
                            value matches JsonValue::Array(a) && a == items,
                            value@ == json::Json::Arr(model),
                            model.len() == items@.len(),
                            texts(out@) == strings_of(model.take(i as int)),
                        decreases items.len() - i,
                    {
                        let ghost before = out@;
                        proof {
                            assert(model[i as int] == items@[i as int]@);
                            assert(model.take(i + 1).drop_last() =~= model.take(i as int));
                            assert(model.take(i + 1).last() == model[i as int]);
                        }
                        match items[i].as_str() {
                            Some(s) => {
                                let label = s.to_owned();
                                out.push(label);
                                assert(texts(out@) =~= texts(before).push(label@));
                            },
                            None => {},
                        }
                        i = i + 1;
                    }
                    assert(model.take(i as int) =~= model);
                },
                _ => {},
            }
        },
        None => {},
    }
    out
}

/// The JSON value for a list of labels. It is the one form in which labels are
/// stored, for issues and pull requests alike.
pub fn json_string_array(items: &[String]) -> (r: JsonValue)
    ensures
        r@ == label_array(texts(items@)),
{
    let mut out: Vec<JsonValue> = Vec::new();
    let mut i: usize = 0;
    while i < items.len()
        invariant
            i <= items.len(),
            out.len() == i,
            forall|k: int| 0 <= k < i ==> (#[trigger] out@[k])@ == json::Json::Str(items@[k]@),
        decreases items.len() - i,
    {
        out.push(JsonValue::String(items[i].clone()));
        i = i + 1;
    }
    let r = JsonValue::Array(out);
    assert(r@->Arr_0 =~= label_array(texts(items@))->Arr_0);
    r
}

// ---------------------------------------------------------------------------
// Folding

/// The state of an issue after the event `e`.
pub open spec fn issue_after(s: IssueModel, e: EventModel) -> IssueModel {
    let t = IssueModel { id: e.entity_id, ..s };
    match e.kind {
        EventKind::IssueCreated => IssueModel {
            title: text_field(e.body, "title"@),
            description: text_field(e.body, "description"@),
            labels: labels_of(e.body),
            open: true,
            ..t
        },
        EventKind::IssueComment => match text_field(e.body, "body"@) {
            Some(c) => IssueModel { comments: t.comments.push(c), ..t },
            None => t,
        },
        EventKind::IssueClose => IssueModel { open: false, ..t },
        EventKind::IssueReopen => IssueModel { open: true, ..t },
        _ => t,
    }
}

/// The state of a pull request after the event `e`. Its number stays as it is.
pub open spec fn pr_after(s: PrModel, e: EventModel) -> PrModel {
    match e.kind {
        EventKind::PrCreated => PrModel {
            title: text_field(e.body, "title"@),
            description: text_field(e.body, "description"@),
            labels: labels_of(e.body),
            source_ref: text_field(e.body, "source_ref"@),
            base_ref: text_field(e.body, "base_ref"@),
            source_head: text_field(e.body, "source_head"@),
            base_head: text_field(e.body, "base_head"@),
            merge_base: text_field(e.body, "merge_base"@),
            ..s
        },
        EventKind::PrComment => match text_field(e.body, "body"@) {
            Some(c) => PrModel { comments: s.comments.push(c), ..s },
            None => s,
        },
        EventKind::PrReview => match text_field(e.body, "decision"@) {
            Some(d) => PrModel { effective_decision: Some(d), ..s },
            None => s,
        },
        EventKind::PrMerge => PrModel { merge_result: text_field(e.body, "result_commit"@), ..s },
        EventKind::CiCheck => PrModel {
            ci_status: text_field(e.body, "status"@),
            ci_plan: text_field(e.body, "plan"@),
            ci_actor: Some(e.actor),
            ci_ts: Some(e.ts),
            ..s
        },
        _ => s,
    }
}

/// The state after the event `e`. Events of other entities change nothing.
pub open spec fn state_after(s: FoldModel, e: EventModel) -> FoldModel {
    if e.entity == "issue"@ {
        FoldModel { issue: issue_after(s.issue, e), pr: s.pr }
    } else if e.entity == "pr"@ {
        FoldModel { issue: s.issue, pr: pr_after(PrModel { id: e.entity_id, ..s.pr }, e) }
    } else {
        s
    }
}

/// What the events `es` amount to, from the state `s` on.
pub open spec fn folded_from(s: FoldModel, es: Seq<EventModel>) -> FoldModel
    decreases es.len(),
{
    if es.len() == 0 {
        s
    } else {
        state_after(folded_from(s, es.drop_last()), es.last())
    }
}

/// What the events `es` amount to.
pub open spec fn folded(es: Seq<EventModel>) -> FoldModel {
    folded_from(no_events(), es)
}

/// The events as mathematics sees them.
pub open spec fn event_models(es: Seq<Event>) -> Seq<EventModel> {
    es.map_values(|e: Event| e@)
}

impl IssueState {
    fn apply(&mut self, event: &Event)
        ensures
            final(self)@ == issue_after(old(self)@, event@),
    {
        let ghost before = self@;
        self.id = event.entity_id;
        match event.kind {
            EventKind::IssueCreated => {
                self.title = str_field(&event.body, "title");
                self.description = str_field(&event.body, "description");
                self.labels = labels_from(&event.body);
                self.open = true;
            },
            EventKind::IssueComment => {
                let ghost comments = self.comments@;
                match str_field(&event.body, "body") {
                    Some(body) => {
                        self.comments.push(body);
                        assert(texts(self.comments@) =~= texts(comments).push(body@));
                    },
                    None => {},
                }
            },
            EventKind::IssueClose => {
                self.open = false;
            },
            EventKind::IssueReopen => {
                self.open = true;
            },
            _ => {},
        }
        assert(self@ =~= issue_after(before, event@));
    }
}

impl PrState {
    /// Applies an event of the pull request. The number stays as it is.
    fn apply(&mut self, event: &Event)
        ensures
            final(self)@ == pr_after(old(self)@, event@),
    {
        let ghost before = self@;
        match event.kind {
            EventKind::PrCreated => {
                self.title = str_field(&event.body, "title");
                self.description = str_field(&event.body, "description");
                self.labels = labels_from(&event.body);
                self.source_ref = str_field(&event.body, "source_ref");
                self.base_ref = str_field(&event.body, "base_ref");
                self.source_head = str_field(&event.body, "source_head");
                self.base_head = str_field(&event.body, "base_head");
                self.merge_base = str_field(&event.body, "merge_base");
            },
            EventKind::PrComment => {
                let ghost comments = self.comments@;
                match str_field(&event.body, "body") {
                    Some(body) => {
                        self.comments.push(body);
                        assert(texts(self.comments@) =~= texts(comments).push(body@));
                    },
                    None => {},
                }
            },
            EventKind::PrReview => {
                match str_field(&event.body, "decision") {
                    Some(decision) => {
                        self.effective_decision = Some(decision);
                    },
                    None => {},
                }
            },
            EventKind::PrMerge => {
                self.merge_result = str_field(&event.body, "result_commit");
            },
            EventKind::CiCheck => {
                // The latest check counts: each one replaces the one before.
                self.ci_status = str_field(&event.body, "status");
                self.ci_plan = str_field(&event.body, "plan");
                self.ci_actor = Some(event.actor.clone());
                self.ci_ts = Some(event.ts.clone());
            },
            _ => {},
        }
        assert(self@ =~= pr_after(before, event@));
    }
}

/// What a chain of events amounts to, first event first.
pub fn fold(events: &[Event]) -> (r: FoldState)
    ensures
        r@ == folded(event_models(events@)),
{
    let ghost all = event_models(events@);
    let mut state = FoldState::default();
    let mut i: usize = 0;
    assert(all.take(0) =~= seq![]);
    while i < events.len()
        invariant
            i <= events.len(),
            all == event_models(events@),
            state@ == folded(all.take(i as int)),
        decreases events.len() - i,
    {
        let event = &events[i];
        proof {
            assert(all[i as int] == event@);
            assert(all.take(i + 1).drop_last() =~= all.take(i as int));
            assert(all.take(i + 1).last() == event@);
        }
        if text::same(event.entity.as_str(), "issue") {
            state.issue.apply(event);
        } else if text::same(event.entity.as_str(), "pr") {
            state.pr.id = event.entity_id;
            state.pr.apply(event);
        }
        i = i + 1;
    }
    assert(all.take(i as int) =~= all);
    state
}

// ---------------------------------------------------------------------------
// Allocation

/// The number that the next issue or pull request gets.
#[derive(Debug, Clone, Copy, PartialEq, Eq, Structural)]
pub struct SeqState {
    pub next: u64,
}

/// The first number, and the counter behind it.
pub fn first_allocation() -> (r: (u64, SeqState))
    ensures
        r.0 == 1,
        r.1 == (SeqState { next: 2 }),
{
    (1, SeqState { next: 2 })
}

} // verus!
