//! The event store: what is written into commits and read back from them.

use crate::event;
use crate::event::{Event, EventKind, JsonObject, JsonValue};
use crate::json;
use crate::oid;
use crate::oid::Oid;
use crate::parser;
use crate::refs;
use crate::refs::RefName;
use crate::text;
use vstd::prelude::*;

pub use crate::refs::{
    issue_ref, pr_base_ref, pr_head_ref, pr_meta_ref, pr_result_ref, pr_source_ref, COUNTER_REF, ZERO_OID,
};

verus! {

/// How often an append is tried.
pub const MAX_APPEND_RETRIES: u32 = 3;

/// How often an allocation is tried.
pub const MAX_ALLOC_RETRIES: u32 = 3;

/// The message of the empty commit that an event chain begins with.
pub const GENESIS_MSG: &'static str = "forge:genesis";

// ---------------------------------------------------------------------------
// Errors

/// A failure of the Git library.
#[derive(Debug, Clone, PartialEq, Eq)]
pub struct GitFailure {
    /// Was something not found?
    pub not_found: bool,
    pub message: String,
}

/// What can go wrong in the store.
#[derive(Debug, Clone, PartialEq, Eq)]
pub enum StoreError {
    Git(GitFailure),
    /// The current directory is in no Git repository.
    NotAGitRepository,
    CasConflict,
    Exhausted,
    MissingEvent,
    MissingRef,
    RefExists(String),
    Command(String),
    InvalidState(String),
}

/// What the user is told of an error.
pub open spec fn error_text(e: StoreError) -> Seq<char> {
    match e {
        StoreError::Git(f) => "git error: "@ + f.message@,
        StoreError::NotAGitRepository => "not a git repository (or any of the parent directories)"@,
        StoreError::CasConflict => "ref CAS conflict — ref moved, retry"@,
        StoreError::Exhausted => "bounded CAS retries exhausted; refs unchanged"@,
        StoreError::MissingEvent => "entity chain has no event.json payload"@,
        StoreError::MissingRef => "required ref does not exist"@,
        StoreError::RefExists(r) => "entity ref already exists: "@ + r@,
        StoreError::Command(s) => "git command failed: "@ + s@,
        StoreError::InvalidState(s) => "invalid store state: "@ + s@,
    }
}

impl StoreError {
    /// What the user is told.
    pub fn to_text(&self) -> (r: String)
        ensures
            r@ == error_text(*self),
    {
        match self {
            StoreError::Git(f) => text::join2("git error: ", f.message.as_str()),
            StoreError::NotAGitRepository =>
                "not a git repository (or any of the parent directories)".to_owned(),
            StoreError::CasConflict => "ref CAS conflict — ref moved, retry".to_owned(),
            StoreError::Exhausted => "bounded CAS retries exhausted; refs unchanged".to_owned(),
            StoreError::MissingEvent => "entity chain has no event.json payload".to_owned(),
            StoreError::MissingRef => "required ref does not exist".to_owned(),
            StoreError::RefExists(r) => text::join2("entity ref already exists: ", r.as_str()),
            StoreError::Command(s) => text::join2("git command failed: ", s.as_str()),
            StoreError::InvalidState(s) => text::join2("invalid store state: ", s.as_str()),
        }
    }
}

/// The error for a repository whose path is no text.
pub fn path_not_text() -> (r: StoreError)
    ensures
        r matches StoreError::InvalidState(m) && m@ == "non-UTF8 .git path"@,
{
    StoreError::InvalidState("non-UTF8 .git path".to_owned())
}

/// The error for a repository that could not be opened: that there is none is told
/// in the forge's own words, and every other failure is kept as it is.
pub fn map_repo_open_err(e: GitFailure) -> (r: StoreError)
    ensures
        e.not_found ==> r is NotAGitRepository,
        !e.not_found ==> r == StoreError::Git(e),
{
    if e.not_found {
        StoreError::NotAGitRepository
    } else {
        StoreError::Git(e)
    }
}

// ---------------------------------------------------------------------------
// The counter

/// The content of a counter commit.
pub open spec fn counter_text(next: int) -> Seq<char> {
    "{\"v\":1,\"next\":"@ + text::decimal(next as nat) + "}"@
}

/// The characters that stand before the number in a counter.
pub open spec fn counter_key() -> Seq<char> {
    seq!['"', 'n', 'e', 'x', 't', '"', ':']
}

/// The number that the counter content `s` holds, or what is wrong with it.
pub open spec fn counter_of(s: Seq<char>) -> Result<int, Seq<char>> {
    let t = text::trimmed(s);
    match text::find_text(t, counter_key(), 0) {
        None => Err("counter.json missing next"@),
        Some(p) => {
            let end = parser::after_digits(t, p + 7);
            let n = text::digits_value(t.subrange(p + 7, end));
            if end > p + 7 && n <= u64::MAX {
                Ok(n)
            } else {
                Err("counter next not a u64"@)
            }
        },
    }
}

/// A counter reads back as the number that was written.
pub proof fn law_counter_reads_back(n: u64)
    ensures
        counter_of(counter_text(n as int)) == Ok::<int, Seq<char>>(n as int),
{
    law_counter_reads_back_in_space(n, seq![], seq![]);
    assert(seq![] + counter_text(n as int) + seq![] =~= counter_text(n as int));
}

/// A counter reads back as the number that was written, whatever white space stands
/// around it.
pub proof fn law_counter_reads_back_in_space(n: u64, before: Seq<char>, after: Seq<char>)
    requires
        text::all_white(before),
        text::all_white(after),
    ensures
        counter_of(before + counter_text(n as int) + after) == Ok::<int, Seq<char>>(n as int),
{
    reveal_strlit("{\"v\":1,\"next\":");
    reveal_strlit("}");
    let head = "{\"v\":1,\"next\":"@;
    let d = text::decimal(n as nat);
    text::law_decimal_reads_back(n as nat);
    let s = counter_text(n as int);
    assert(head.len() == 14 && "}"@.len() == 1);
    assert(s[0] == head[0] && s[1] == head[1] && s[2] == head[2] && s[3] == head[3] && s[4]
        == head[4] && s[5] == head[5] && s[6] == head[6] && s[7] == head[7]);
    assert(s.last() == '}');
    text::law_trimmed_of_padded(before, s, after);
    let key = counter_key();
    assert(s.subrange(7, 14) =~= key) by {
        assert(forall|i: int| 7 <= i < 14 ==> s[i] == head[i]);
    }
    assert(s.subrange(0, 7)[0] != key[0]);
    assert(s.subrange(1, 8)[1] != key[1]);
    assert(s.subrange(2, 9)[0] != key[0]);
    assert(s.subrange(3, 10)[1] != key[1]);
    assert(s.subrange(4, 11)[0] != key[0]);
    assert(s.subrange(5, 12)[0] != key[0]);
    assert(s.subrange(6, 13)[0] != key[0]);
    reveal_with_fuel(text::find_text, 9);
    assert(text::find_text(s, key, 0) == Some(7int));
    let end = 14int + d.len();
    assert(s.subrange(14, end) =~= d);
    assert(s[end] == "}"@[0]);
    crate::roundtrip::lemma_digits_end(s, 14, end);
}

/// The content of a counter commit.
pub fn counter_json(next: u64) -> (r: String)
    ensures
        r@ == counter_text(next as int),
{
    let mut s = "{\"v\":1,\"next\":".to_owned();
    s.append(text::decimal_string(next).as_str());
    s.append("}");
    s
}

/// The number that the counter content holds.
pub fn parse_counter_next(content: &str) -> (r: Result<u64, StoreError>)
    ensures
        match (r, counter_of(content@)) {
            (Ok(n), Ok(m)) => n == m,
            (Err(StoreError::InvalidState(e)), Err(m)) => e@ == m,
            _ => false,
        },
{
    let all = text::chars_of(content);
    let t = text::trim(all.as_slice());
    let key = ['"', 'n', 'e', 'x', 't', '"', ':'];
    assert(key@ =~= counter_key());
    match text::position_of(t, vstd::array::array_as_slice(&key)) {
        None => Err(StoreError::InvalidState("counter.json missing next".to_owned())),
        Some(p) => {
            assert(p + 7 <= t.len());
            let first: usize = p + 7;
            let mut end: usize = first;
            while end < t.len() && ('0' <= t[end] && t[end] <= '9')
                invariant
                    first <= end <= t@.len(),
                    parser::after_digits(t@, end as int) == parser::after_digits(t@, first as int),
                decreases t@.len() - end,
            {
                end = end + 1;
            }
            proof {
                parser::lemma_after_digits(t@, first as int);
            }
            if end > first {
                match text::digits_to_u64(t, first, end) {
                    Some(n) => {
                        return Ok(n);
                    },
                    None => {},
                }
            }
            Err(StoreError::InvalidState("counter next not a u64".to_owned()))
        },
    }
}

// ---------------------------------------------------------------------------
// What commits hold

/// What a commit has at the path of its payload.
#[derive(Debug, Clone, PartialEq, Eq)]
pub enum Payload {
    /// Nothing: the commit carries no payload.
    Absent,
    /// Something that is no file.
    NotBlob,
    /// A file with this content.
    Blob(Vec<u8>),
}

/// What is wrong with a payload.
#[derive(Debug, Clone, Copy, PartialEq, Eq, Structural)]
pub enum PayloadFault {
    NotBlob,
    NotUtf8,
    NotEvent,
}

/// The event that a payload holds.
pub open spec fn payload_event(p: Payload) -> Result<Option<event::EventModel>, PayloadFault> {
    match p {
        Payload::Absent => Ok(None),
        Payload::NotBlob => Err(PayloadFault::NotBlob),
        Payload::Blob(b) => if !vstd::utf8::valid_utf8(b@) {
            Err(PayloadFault::NotUtf8)
        } else {
            match event::event_of_text(vstd::utf8::decode_utf8(b@)) {
                Some(e) => Ok(Some(e)),
                None => Err(PayloadFault::NotEvent),
            }
        },
    }
}

/// The error for a faulty event payload.
pub open spec fn is_event_error(e: StoreError, fault: PayloadFault) -> bool {
    match fault {
        PayloadFault::NotBlob => e matches StoreError::InvalidState(m) && m@
            == ".forge/event.json is not a blob"@,
        PayloadFault::NotUtf8 => e matches StoreError::InvalidState(m) && m@
            == "event.json not valid UTF-8"@,
        PayloadFault::NotEvent => e is MissingEvent,
    }
}

/// The event that the payload of a commit holds; none where there is no payload.
pub fn read_event_payload(p: &Payload) -> (r: Result<Option<Event>, StoreError>)
    ensures
        match (r, payload_event(*p)) {
            (Ok(Some(e)), Ok(Some(m))) => e@ == m,
            (Ok(None), Ok(None)) => true,
            (Err(e), Err(fault)) => is_event_error(e, fault),
            _ => false,
        },
{
    match p {
        Payload::Absent => Ok(None),
        Payload::NotBlob => Err(
            StoreError::InvalidState(".forge/event.json is not a blob".to_owned()),
        ),
        Payload::Blob(b) => match text::from_utf8(b.as_slice()) {
            None => Err(StoreError::InvalidState("event.json not valid UTF-8".to_owned())),
            Some(content) => match Event::from_json(content.as_str()) {
                Some(e) => Ok(Some(e)),
                None => Err(StoreError::MissingEvent),
            },
        },
    }
}

/// Does the event of a payload create a pull request, or what is wrong with the payload?
pub open spec fn payload_creates(p: Payload) -> Result<bool, PayloadFault> {
    match payload_event(p) {
        Ok(Some(e)) => Ok(e.kind == EventKind::PrCreated),
        Ok(None) => Ok(false),
        Err(fault) => Err(fault),
    }
}

/// Does the event that the payload of a commit holds create a pull request?
pub fn creates_pr(p: &Payload) -> (r: Result<bool, StoreError>)
    ensures
        match (r, payload_creates(*p)) {
            (Ok(b), Ok(m)) => b == m,
            (Err(e), Err(fault)) => is_event_error(e, fault),
            _ => false,
        },
{
    match read_event_payload(p) {
        Ok(Some(e)) => Ok(e.kind == EventKind::PrCreated),
        Ok(None) => Ok(false),
        Err(e) => Err(e),
    }
}

/// The number that the payload of a counter commit holds, or what is wrong with it.
pub open spec fn payload_counter(p: Payload) -> Result<int, Seq<char>> {
    match p {
        Payload::Absent => Err("counter tree missing counter.json"@),
        Payload::NotBlob => Err("counter.json is not a blob"@),
        Payload::Blob(b) => if !vstd::utf8::valid_utf8(b@) {
            Err("counter.json not valid UTF-8"@)
        } else {
            counter_of(vstd::utf8::decode_utf8(b@))
        },
    }
}

/// The number that the payload of a counter commit holds.
pub fn read_counter_payload(p: &Payload) -> (r: Result<u64, StoreError>)
    ensures
        match (r, payload_counter(*p)) {
            (Ok(n), Ok(m)) => n == m,
            (Err(StoreError::InvalidState(e)), Err(m)) => e@ == m,
            _ => false,
        },
{
    match p {
        Payload::Absent => Err(
            StoreError::InvalidState("counter tree missing counter.json".to_owned()),
        ),
        Payload::NotBlob => Err(StoreError::InvalidState("counter.json is not a blob".to_owned())),
        Payload::Blob(b) => match text::from_utf8(b.as_slice()) {
            None => Err(StoreError::InvalidState("counter.json not valid UTF-8".to_owned())),
            Some(content) => parse_counter_next(content.as_str()),
        },
    }
}

/// The number of the next issue or pull request: what the counter commit holds,
/// and 1 where there is no counter yet.
pub fn counter_next(counter: Option<&Payload>) -> (r: Result<u64, StoreError>)
    ensures
        match counter {
            None => r matches Ok(n) && n == 1,
            Some(p) => match (r, payload_counter(*p)) {
                (Ok(n), Ok(m)) => n == m,
                (Err(StoreError::InvalidState(e)), Err(m)) => e@ == m,
                _ => false,
            },
        },
{
    match counter {
        None => Ok(1),
        Some(p) => read_counter_payload(p),
    }
}

/// The bytes of a text file with the given content.
pub fn file_bytes(content: &str) -> (r: Vec<u8>)
    ensures
        r@ == vstd::utf8::encode_utf8(content@),
{
    content.as_bytes_vec()
}

/// The content of an event commit.
pub fn event_payload(e: &Event) -> (r: Vec<u8>)
    ensures
        r@ == vstd::utf8::encode_utf8(event::event_text(e@)),
        e.v == 1 && crate::uuid::uuid_v4_shape(e.id@) && e.entity_id <= i64::MAX ==> payload_event(
            Payload::Blob(r),
        ) == Ok::<Option<event::EventModel>, PayloadFault>(Some(e@)),
{
    let json = e.to_json();
    let r = file_bytes(json.as_str());
    proof {
        vstd::utf8::encode_utf8_valid_utf8(json@);
        vstd::utf8::encode_utf8_decode_utf8(json@);
    }
    r
}

/// The content of a counter commit.
pub fn counter_payload(next: u64) -> (r: Vec<u8>)
    ensures
        r@ == vstd::utf8::encode_utf8(counter_text(next as int)),
        payload_counter(Payload::Blob(r)) == Ok::<int, Seq<char>>(next as int),
{
    let json = counter_json(next);
    let r = file_bytes(json.as_str());
    proof {
        vstd::utf8::encode_utf8_valid_utf8(json@);
        vstd::utf8::encode_utf8_decode_utf8(json@);
        law_counter_reads_back(next);
    }
    r
}

/// The message of an event commit.
pub open spec fn commit_message(e: event::EventModel) -> Seq<char> {
    "forge:"@ + event::kind_text(e.kind) + ":"@ + text::decimal(e.entity_id as nat)
}

/// The message of an event commit.
pub fn event_message(e: &Event) -> (r: String)
    ensures
        r@ == commit_message(e@),
{
    let mut s = "forge:".to_owned();
    s.append(e.kind.as_str());
    s.append(":");
    s.append(text::decimal_string(e.entity_id).as_str());
    s
}

// ---------------------------------------------------------------------------
// Chains

/// The events that the payloads of a chain hold, or the first fault: payloads
/// without an event count for nothing.
pub open spec fn payload_events(ps: Seq<Payload>) -> Result<Seq<event::EventModel>, PayloadFault>
    decreases ps.len(),
{
    if ps.len() == 0 {
        Ok(seq![])
    } else {
        match payload_events(ps.drop_last()) {
            Err(fault) => Err(fault),
            Ok(es) => match payload_event(ps.last()) {
                Err(fault) => Err(fault),
                Ok(None) => Ok(es),
                Ok(Some(e)) => Ok(es.push(e)),
            },
        }
    }
}

/// A chain that is being read from its tip to its root.
pub struct ChainReader {
    newest_first: Vec<Event>,
}

impl ChainReader {
    /// The events that were read, newest first.
    pub closed spec fn view(&self) -> Seq<event::EventModel> {
        event::event_models(self.newest_first@)
    }

    /// Nothing read yet.
    pub fn new() -> (r: Self)
        ensures
            r@ == Seq::<event::EventModel>::empty(),
    {
        let newest_first: Vec<Event> = Vec::new();
        let r = ChainReader { newest_first };
        assert(r@ =~= seq![]);
        r
    }

    /// Reads the payload of the next older commit.
    pub fn read(&mut self, p: &Payload) -> (r: Result<(), StoreError>)
        ensures
            match (r, payload_event(*p)) {
                (Ok(_), Ok(Some(e))) => final(self)@ == old(self)@.push(e),
                (Ok(_), Ok(None)) => final(self)@ == old(self)@,
                (Err(e), Err(fault)) => is_event_error(e, fault) && final(self)@ == old(self)@,
                _ => false,
            },
    {
        let ghost before = self.newest_first@;
        match read_event_payload(p) {
            Err(e) => Err(e),
            Ok(None) => Ok(()),
            Ok(Some(e)) => {
                self.newest_first.push(e);
                assert(self@ =~= event::event_models(before).push(e@));
                Ok(())
            },
        }
    }

    /// The events, oldest first.
    pub fn finish(self) -> (r: Vec<Event>)
        ensures
            event::event_models(r@) == self@.reverse(),
    {
        let mut out: Vec<Event> = Vec::new();
        let n = self.newest_first.len();
        let mut i: usize = n;
        while i > 0
            invariant
                i <= n == self.newest_first@.len(),
                out.len() == n - i,
                forall|k: int|
                    0 <= k < n - i ==> (#[trigger] out@[k])@ == self.newest_first@[n - 1 - k]@,
            decreases i,
        {
            i = i - 1;
            out.push(self.newest_first[i].clone());
        }
        assert(event::event_models(out@) =~= self@.reverse());
        out
    }
}

/// Is the payload what is written for the event?
pub open spec fn holds_event(p: Payload, e: event::EventModel) -> bool {
    p matches Payload::Blob(b) && b@ == vstd::utf8::encode_utf8(event::event_text(e))
}

/// The payloads of a chain of events, newest first, on top of a root without one.
pub open spec fn stored_chain(es: Seq<event::EventModel>, ps: Seq<Payload>) -> bool {
    &&& ps.len() == es.len() + 1
    &&& ps.last() is Absent
    &&& forall|i: int|
        0 <= i < es.len() ==> holds_event(#[trigger] ps[i], es[es.len() - 1 - i])
}

/// Can the event be stored so that it reads back?
pub open spec fn storable(e: event::EventModel) -> bool {
    &&& e.v == 1
    &&& crate::uuid::uuid_v4_shape(e.id)
    &&& 0 <= e.entity_id <= i64::MAX
    &&& crate::roundtrip::canonical(json::Json::Obj(e.body))
}

proof fn lemma_stored_prefix(es: Seq<event::EventModel>, ps: Seq<Payload>, n: int)
    requires
        stored_chain(es, ps),
        forall|i: int| 0 <= i < es.len() ==> storable(#[trigger] es[i]),
        0 <= n <= es.len(),
    ensures
        payload_events(ps.take(n)) == Ok::<Seq<event::EventModel>, PayloadFault>(
            es.reverse().take(n),
        ),
    decreases n,
{
    if n == 0 {
        assert(es.reverse().take(0) =~= seq![]);
        assert(ps.take(0) =~= seq![]);
    } else {
        lemma_stored_prefix(es, ps, n - 1);
        assert(ps.take(n).drop_last() =~= ps.take(n - 1));
        let e = es[es.len() - n];
        assert(holds_event(ps[n - 1], e));
        assert(storable(e));
        event::law_event_reads_back(e);
        vstd::utf8::encode_utf8_valid_utf8(event::event_text(e));
        vstd::utf8::encode_utf8_decode_utf8(event::event_text(e));
        assert(es.reverse().take(n) =~= es.reverse().take(n - 1).push(e));
    }
}

/// A chain reads back as the events that were appended to it: read from the tip to
/// the root and turned round.
pub proof fn law_chain_reads_back(es: Seq<event::EventModel>, ps: Seq<Payload>)
    requires
        stored_chain(es, ps),
        forall|i: int| 0 <= i < es.len() ==> storable(#[trigger] es[i]),
    ensures
        payload_events(ps) == Ok::<Seq<event::EventModel>, PayloadFault>(es.reverse()),
        es.reverse().reverse() == es,
{
    lemma_stored_prefix(es, ps, es.len() as int);
    assert(ps.drop_last() =~= ps.take(es.len() as int));
    assert(es.reverse().take(es.len() as int) =~= es.reverse());
    assert(es.reverse().reverse() =~= es);
}

/// Is the chain of a pull request anchored: does it hold exactly one event that creates the
/// pull request, in the very commit that the metadata ref names?
pub open spec fn anchored(created: Seq<Oid>, meta: Option<Oid>) -> bool {
    meta matches Some(m) && created == seq![m]
}

/// Refuses a chain that is not anchored. `created` are the commits of the chain whose
/// event creates a pull request, and `meta` is what the metadata ref names.
pub fn check_creation(created: &[Oid], meta: Option<Oid>) -> (r: Result<(), StoreError>)
    ensures
        r is Ok <==> anchored(created@, meta),
        r matches Err(e) ==> e matches StoreError::InvalidState(s) && s@
            == "PR chain is not anchored at its creation"@,
{
    if let Some(m) = meta {
        if created.len() == 1 && created[0] == m {
            assert(created@ =~= seq![m]);
            return Ok(());
        }
        assert(created@ == seq![m] ==> created@.len() == 1 && created@[0] == m);
    }
    Err(StoreError::InvalidState("PR chain is not anchored at its creation".to_owned()))
}

} // verus!
