//! The bodies of events: what each kind of event records.

use crate::event;
use crate::event::{EventKind, JsonObject, JsonValue};
use crate::json;
use crate::oid;
use crate::oid::Oid;
use vstd::prelude::*;

verus! {

/// The members with `key` set to a text.
pub open spec fn with_text(
    m: Seq<(Seq<char>, json::Json)>,
    key: Seq<char>,
    s: Seq<char>,
) -> Seq<(Seq<char>, json::Json)> {
    json::with_member(m, key, json::Json::Str(s))
}

/// The members with `key` set to a text, where there is one.
pub open spec fn with_opt(
    m: Seq<(Seq<char>, json::Json)>,
    key: Seq<char>,
    o: Option<Seq<char>>,
) -> Seq<(Seq<char>, json::Json)> {
    match o {
        Some(s) => with_text(m, key, s),
        None => m,
    }
}

/// The members with the labels, where there are any.
pub open spec fn with_labels(
    m: Seq<(Seq<char>, json::Json)>,
    labels: Seq<Seq<char>>,
) -> Seq<(Seq<char>, json::Json)> {
    if labels.len() == 0 {
        m
    } else {
        json::with_member(m, "labels"@, event::label_array(labels))
    }
}

/// Sets `key` to a text.
fn set_text(m: &mut JsonObject, key: &str, s: &str)
    ensures
        final(m)@ == with_text(old(m)@, key@, s@),
{
    m.insert(key.to_owned(), JsonValue::String(s.to_owned()));
}

/// Sets `key` to a text, where there is one.
fn set_opt(m: &mut JsonObject, key: &str, o: Option<&str>)
    ensures
        final(m)@ == with_opt(
            old(m)@,
            key@,
            match o {
                Some(s) => Some(s@),
                None => None,
            },
        ),
{
    match o {
        Some(s) => set_text(m, key, s),
        None => {},
    }
}

/// Sets the labels, where there are any.
fn set_labels(m: &mut JsonObject, labels: &[String])
    ensures
        final(m)@ == with_labels(old(m)@, event::texts(labels@)),
{
    if labels.len() > 0 {
        m.insert("labels".to_owned(), event::json_string_array(labels));
    }
}

/// What an optional text holds.
pub open spec fn opt_view(o: Option<&str>) -> Option<Seq<char>> {
    match o {
        Some(s) => Some(s@),
        None => None,
    }
}

// ---------------------------------------------------------------------------
// Bodies

/// The body of the creation of an issue.
pub open spec fn issue_created(
    title: Seq<char>,
    description: Option<Seq<char>>,
    labels: Seq<Seq<char>>,
) -> Seq<(Seq<char>, json::Json)> {
    with_labels(
        with_opt(with_text(seq![], "title"@, title), "description"@, description),
        labels,
    )
}

/// The body of the creation of an issue.
pub fn issue_created_body(title: &str, description: Option<&str>, labels: &[String]) -> (r:
    JsonObject)
    ensures
        r@ == issue_created(title@, opt_view(description), event::texts(labels@)),
{
    let mut m = JsonObject::new();
    set_text(&mut m, "title", title);
    set_opt(&mut m, "description", description);
    set_labels(&mut m, labels);
    m
}

/// The body of a comment.
pub open spec fn comment(body: Seq<char>) -> Seq<(Seq<char>, json::Json)> {
    with_text(seq![], "body"@, body)
}

/// The body of a comment.
pub fn comment_body(body: &str) -> (r: JsonObject)
    ensures
        r@ == comment(body@),
{
    let mut m = JsonObject::new();
    set_text(&mut m, "body", body);
    m
}

/// The body of the creation of a pull request.
pub open spec fn pr_created(
    title: Seq<char>,
    source_ref: Seq<char>,
    base_ref: Seq<char>,
    source: Oid,
    base: Oid,
    merge_base: Oid,
    description: Option<Seq<char>>,
    labels: Seq<Seq<char>>,
) -> Seq<(Seq<char>, json::Json)> {
    let m1 = with_text(seq![], "title"@, title);
    let m2 = with_text(m1, "source_ref"@, source_ref);
    let m3 = with_text(m2, "base_ref"@, base_ref);
    let m4 = with_text(m3, "source_head"@, oid::oid_text(source));
    let m5 = with_text(m4, "base_head"@, oid::oid_text(base));
    let m6 = with_text(m5, "merge_base"@, oid::oid_text(merge_base));
    with_labels(with_opt(m6, "description"@, description), labels)
}

/// The body of the creation of a pull request.
pub fn pr_created_body(
    title: &str,
    source_ref: &str,
    base_ref: &str,
    source: Oid,
    base: Oid,
    merge_base: Oid,
    description: Option<&str>,
    labels: &[String],
) -> (r: JsonObject)
    ensures
        r@ == pr_created(
            title@,
            source_ref@,
            base_ref@,
            source,
            base,
            merge_base,
            opt_view(description),
            event::texts(labels@),
        ),
{
    let mut m = JsonObject::new();
    set_text(&mut m, "title", title);
    set_text(&mut m, "source_ref", source_ref);
    set_text(&mut m, "base_ref", base_ref);
    set_text(&mut m, "source_head", source.to_hex().as_str());
    set_text(&mut m, "base_head", base.to_hex().as_str());
    set_text(&mut m, "merge_base", merge_base.to_hex().as_str());
    set_opt(&mut m, "description", description);
    set_labels(&mut m, labels);
    m
}

/// The body of a CI check.
pub open spec fn check(status: Seq<char>, plan: Option<Seq<char>>) -> Seq<(Seq<char>, json::Json)> {
    with_opt(with_text(seq![], "status"@, status), "plan"@, plan)
}

/// The body of a CI check that is still to be run.
pub fn pending_check_body() -> (r: JsonObject)
    ensures
        r@ == check("pending"@, None),
{
    let mut m = JsonObject::new();
    set_text(&mut m, "status", "pending");
    m
}

/// The body of a CI check that ran `plan`: `success` or `failed`.
pub fn check_body(passed: bool, plan: &str) -> (r: JsonObject)
    ensures
        r@ == check(
            if passed {
                "success"@
            } else {
                "failed"@
            },
            Some(plan@),
        ),
{
    let mut m = JsonObject::new();
    set_text(
        &mut m,
        "status",
        if passed {
            "success"
        } else {
            "failed"
        },
    );
    set_text(&mut m, "plan", plan);
    m
}

/// The body of a review.
pub open spec fn review(
    decision: Seq<char>,
    file: Option<Seq<char>>,
    line: Option<Seq<char>>,
    commit: Option<Seq<char>>,
) -> Seq<(Seq<char>, json::Json)> {
    with_opt(
        with_opt(with_opt(with_text(seq![], "decision"@, decision), "file"@, file), "line"@, line),
        "commit"@,
        commit,
    )
}

/// The body of a review.
pub fn review_body(
    decision: &str,
    file: Option<&str>,
    line: Option<&str>,
    commit: Option<&str>,
) -> (r: JsonObject)
    ensures
        r@ == review(decision@, opt_view(file), opt_view(line), opt_view(commit)),
{
    let mut m = JsonObject::new();
    set_text(&mut m, "decision", decision);
    set_opt(&mut m, "file", file);
    set_opt(&mut m, "line", line);
    set_opt(&mut m, "commit", commit);
    m
}

/// The body of a merge.
pub open spec fn merge(result: Oid) -> Seq<(Seq<char>, json::Json)> {
    with_text(seq![], "result_commit"@, oid::oid_text(result))
}

/// The body of a merge.
pub fn merge_body(result: Oid) -> (r: JsonObject)
    ensures
        r@ == merge(result),
{
    let mut m = JsonObject::new();
    set_text(&mut m, "result_commit", result.to_hex().as_str());
    m
}

// ---------------------------------------------------------------------------
// What the bodies fold to

proof fn lemma_set(m: Seq<(Seq<char>, json::Json)>, key: Seq<char>, v: json::Json, other: Seq<char>)
    requires
        json::ordered(m),
    ensures
        json::ordered(json::with_member(m, key, v)),
        json::lookup(json::with_member(m, key, v), other) == if other == key {
            Some(v)
        } else {
            json::lookup(m, other)
        },
{
    json::law_with_member_ordered(m, key, v);
    json::law_with_member_lookup(m, key, v, other);
}

proof fn lemma_with_opt(
    m: Seq<(Seq<char>, json::Json)>,
    key: Seq<char>,
    o: Option<Seq<char>>,
    other: Seq<char>,
)
    requires
        json::ordered(m),
    ensures
        json::ordered(with_opt(m, key, o)),
        json::lookup(with_opt(m, key, o), other) == if other == key && o is Some {
            Some(json::Json::Str(o.unwrap()))
        } else {
            json::lookup(m, other)
        },
{
    if let Some(s) = o {
        lemma_set(m, key, json::Json::Str(s), other);
    }
}

proof fn lemma_with_labels(
    m: Seq<(Seq<char>, json::Json)>,
    labels: Seq<Seq<char>>,
    other: Seq<char>,
)
    requires
        json::ordered(m),
    ensures
        json::lookup(with_labels(m, labels), other) == if other == "labels"@ && labels.len() > 0 {
            Some(event::label_array(labels))
        } else {
            json::lookup(m, other)
        },
{
    if labels.len() > 0 {
        lemma_set(m, "labels"@, event::label_array(labels), other);
    }
}

proof fn lemma_keys()
    ensures
        "title"@.len() == 5,
        "description"@.len() == 11,
        "labels"@.len() == 6,
        "source_ref"@.len() == 10,
        "base_ref"@.len() == 8,
        "source_head"@.len() == 11,
        "base_head"@.len() == 9,
        "merge_base"@.len() == 10,
        "description"@ != "source_head"@,
        "source_ref"@ != "merge_base"@,
        "status"@.len() == 6,
        "plan"@.len() == 4,
        "decision"@.len() == 8,
        "file"@.len() == 4,
        "line"@.len() == 4,
        "commit"@.len() == 6,
{
    reveal_strlit("title");
    reveal_strlit("description");
    reveal_strlit("labels");
    reveal_strlit("source_ref");
    reveal_strlit("base_ref");
    reveal_strlit("source_head");
    reveal_strlit("base_head");
    reveal_strlit("merge_base");
    reveal_strlit("status");
    reveal_strlit("plan");
    reveal_strlit("decision");
    reveal_strlit("file");
    reveal_strlit("line");
    reveal_strlit("commit");
    assert("description"@[0] != "source_head"@[0]);
    assert("source_ref"@[0] != "merge_base"@[0]);
}

/// The labels that a body names which was made with these labels.
proof fn lemma_labels(m: Seq<(Seq<char>, json::Json)>, labels: Seq<Seq<char>>)
    requires
        json::lookup(m, "labels"@) == if labels.len() > 0 {
            Some(event::label_array(labels))
        } else {
            None
        },
    ensures
        event::labels_of(m) == labels,
{
    if labels.len() > 0 {
        event::law_labels_read_back(m, labels);
    } else {
        assert(labels =~= seq![]);
    }
}

/// A created issue is open, and shows the title, the description and the labels that
/// it was created with.
pub proof fn law_created_issue_shows(
    s: event::IssueModel,
    e: event::EventModel,
    title: Seq<char>,
    description: Option<Seq<char>>,
    labels: Seq<Seq<char>>,
)
    requires
        e.kind == EventKind::IssueCreated,
        e.body == issue_created(title, description, labels),
    ensures
        ({
            let t = event::issue_after(s, e);
            &&& t.id == e.entity_id
            &&& t.title == Some(title)
            &&& t.description == description
            &&& t.labels == labels
            &&& t.open
        }),
{
    lemma_keys();
    let m0: Seq<(Seq<char>, json::Json)> = seq![];
    let m1 = with_text(m0, "title"@, title);
    let m2 = with_opt(m1, "description"@, description);
    let keys = seq!["title"@, "description"@, "labels"@];
    assert forall|i: int| 0 <= i < keys.len() implies json::lookup(
        e.body,
        #[trigger] keys[i],
    ) == if i == 0 {
        Some(json::Json::Str(title))
    } else if i == 1 {
        match description {
            Some(d) => Some(json::Json::Str(d)),
            None => None,
        }
    } else if labels.len() > 0 {
        Some(event::label_array(labels))
    } else {
        None
    } by {
        let k = keys[i];
        lemma_set(m0, "title"@, json::Json::Str(title), k);
        lemma_with_opt(m1, "description"@, description, k);
        lemma_with_labels(m2, labels, k);
    }
    assert(keys[0] == "title"@ && keys[1] == "description"@ && keys[2] == "labels"@);
    lemma_labels(e.body, labels);
}

/// A created pull request shows what it was created with.
pub proof fn law_created_pr_shows(
    s: event::PrModel,
    e: event::EventModel,
    title: Seq<char>,
    source_ref: Seq<char>,
    base_ref: Seq<char>,
    source: Oid,
    base: Oid,
    merge_base: Oid,
    description: Option<Seq<char>>,
    labels: Seq<Seq<char>>,
)
    requires
        e.kind == EventKind::PrCreated,
        e.body == pr_created(
            title,
            source_ref,
            base_ref,
            source,
            base,
            merge_base,
            description,
            labels,
        ),
    ensures
        ({
            let t = event::pr_after(s, e);
            &&& t.id == s.id
            &&& t.title == Some(title)
            &&& t.source_ref == Some(source_ref)
            &&& t.base_ref == Some(base_ref)
            &&& t.source_head == Some(oid::oid_text(source))
            &&& t.base_head == Some(oid::oid_text(base))
            &&& t.merge_base == Some(oid::oid_text(merge_base))
            &&& t.description == description
            &&& t.labels == labels
        }),
{
    let keys = seq![
        "title"@,
        "source_ref"@,
        "base_ref"@,
        "source_head"@,
        "base_head"@,
        "merge_base"@,
        "description"@,
        "labels"@,
    ];
    lemma_keys();
    assert forall|i: int| 0 <= i < keys.len() implies json::lookup(
        e.body,
        #[trigger] keys[i],
    ) == if i == 0 {
        Some(json::Json::Str(title))
    } else if i == 1 {
        Some(json::Json::Str(source_ref))
    } else if i == 2 {
        Some(json::Json::Str(base_ref))
    } else if i == 3 {
        Some(json::Json::Str(oid::oid_text(source)))
    } else if i == 4 {
        Some(json::Json::Str(oid::oid_text(base)))
    } else if i == 5 {
        Some(json::Json::Str(oid::oid_text(merge_base)))
    } else if i == 6 {
        match description {
            Some(d) => Some(json::Json::Str(d)),
            None => None,
        }
    } else if labels.len() > 0 {
        Some(event::label_array(labels))
    } else {
        None
    } by {
        let k = keys[i];
        let m0: Seq<(Seq<char>, json::Json)> = seq![];
        let m1 = with_text(m0, "title"@, title);
        let m2 = with_text(m1, "source_ref"@, source_ref);
        let m3 = with_text(m2, "base_ref"@, base_ref);
        let m4 = with_text(m3, "source_head"@, oid::oid_text(source));
        let m5 = with_text(m4, "base_head"@, oid::oid_text(base));
        let m6 = with_text(m5, "merge_base"@, oid::oid_text(merge_base));
        let m7 = with_opt(m6, "description"@, description);
        lemma_set(m0, "title"@, json::Json::Str(title), k);
        lemma_set(m1, "source_ref"@, json::Json::Str(source_ref), k);
        lemma_set(m2, "base_ref"@, json::Json::Str(base_ref), k);
        lemma_set(m3, "source_head"@, json::Json::Str(oid::oid_text(source)), k);
        lemma_set(m4, "base_head"@, json::Json::Str(oid::oid_text(base)), k);
        lemma_set(m5, "merge_base"@, json::Json::Str(oid::oid_text(merge_base)), k);
        lemma_with_opt(m6, "description"@, description, k);
        lemma_with_labels(m7, labels, k);
    }
    assert(keys[0] == "title"@ && keys[1] == "source_ref"@ && keys[2] == "base_ref"@ && keys[3]
        == "source_head"@ && keys[4] == "base_head"@ && keys[5] == "merge_base"@ && keys[6]
        == "description"@ && keys[7] == "labels"@);
    lemma_labels(e.body, labels);
}

/// A recorded CI check shows its status and its plan.
pub proof fn law_check_shows(
    s: event::PrModel,
    e: event::EventModel,
    status: Seq<char>,
    plan: Option<Seq<char>>,
)
    requires
        e.kind == EventKind::CiCheck,
        e.body == check(status, plan),
    ensures
        event::pr_after(s, e).ci_status == Some(status),
        event::pr_after(s, e).ci_plan == plan,
{
    lemma_keys();
    let m0: Seq<(Seq<char>, json::Json)> = seq![];
    let m1 = with_text(m0, "status"@, status);
    lemma_set(m0, "status"@, json::Json::Str(status), "status"@);
    lemma_set(m0, "status"@, json::Json::Str(status), "plan"@);
    lemma_with_opt(m1, "plan"@, plan, "status"@);
    lemma_with_opt(m1, "plan"@, plan, "plan"@);
}

/// A recorded review shows its decision.
pub proof fn law_review_shows(
    s: event::PrModel,
    e: event::EventModel,
    decision: Seq<char>,
    file: Option<Seq<char>>,
    line: Option<Seq<char>>,
    commit: Option<Seq<char>>,
)
    requires
        e.kind == EventKind::PrReview,
        e.body == review(decision, file, line, commit),
    ensures
        event::pr_after(s, e).effective_decision == Some(decision),
{
    lemma_keys();
    let k = "decision"@;
    let m0: Seq<(Seq<char>, json::Json)> = seq![];
    let m1 = with_text(m0, k, decision);
    let m2 = with_opt(m1, "file"@, file);
    let m3 = with_opt(m2, "line"@, line);
    lemma_set(m0, k, json::Json::Str(decision), k);
    lemma_with_opt(m1, "file"@, file, k);
    lemma_with_opt(m2, "line"@, line, k);
    lemma_with_opt(m3, "commit"@, commit, k);
}

/// A recorded merge shows its result.
pub proof fn law_merge_shows(s: event::PrModel, e: event::EventModel, result: Oid)
    requires
        e.kind == EventKind::PrMerge,
        e.body == merge(result),
    ensures
        event::pr_after(s, e).merge_result == Some(oid::oid_text(result)),
{
    let m0: Seq<(Seq<char>, json::Json)> = seq![];
    lemma_set(m0, "result_commit"@, json::Json::Str(oid::oid_text(result)), "result_commit"@);
}

/// A recorded comment comes last among the comments.
pub proof fn law_comment_shows(
    i: event::IssueModel,
    p: event::PrModel,
    e: event::EventModel,
    body: Seq<char>,
)
    requires
        e.body == comment(body),
    ensures
        e.kind == EventKind::IssueComment ==> event::issue_after(i, e).comments
            == i.comments.push(body),
        e.kind == EventKind::PrComment ==> event::pr_after(p, e).comments == p.comments.push(body),
{
    let m0: Seq<(Seq<char>, json::Json)> = seq![];
    lemma_set(m0, "body"@, json::Json::Str(body), "body"@);
}

/// The kind of the event that closes an issue, or reopens it.
pub fn state_kind(close: bool) -> (r: EventKind)
    ensures
        r == (if close {
            EventKind::IssueClose
        } else {
            EventKind::IssueReopen
        }),
{
    if close {
        EventKind::IssueClose
    } else {
        EventKind::IssueReopen
    }
}

// ---------------------------------------------------------------------------
// What the bodies hold

/// The body of a review holds each of its parts under its own key, and nothing under the
/// key of a part that it lacks.
pub proof fn law_review_body_holds(
    decision: Seq<char>,
    file: Option<Seq<char>>,
    line: Option<Seq<char>>,
    commit: Option<Seq<char>>,
)
    ensures
        event::text_field(review(decision, file, line, commit), "decision"@) == Some(decision),
        event::text_field(review(decision, file, line, commit), "file"@) == file,
        event::text_field(review(decision, file, line, commit), "line"@) == line,
        event::text_field(review(decision, file, line, commit), "commit"@) == commit,
{
    lemma_keys();
    reveal_strlit("file");
    reveal_strlit("line");
    assert("file"@[0] != "line"@[0]);
    let m0: Seq<(Seq<char>, json::Json)> = seq![];
    let m1 = with_text(m0, "decision"@, decision);
    let m2 = with_opt(m1, "file"@, file);
    let m3 = with_opt(m2, "line"@, line);
    let keys = seq!["decision"@, "file"@, "line"@, "commit"@];
    assert forall|i: int| 0 <= i < keys.len() implies event::text_field(
        review(decision, file, line, commit),
        #[trigger] keys[i],
    ) == if i == 0 {
        Some(decision)
    } else if i == 1 {
        file
    } else if i == 2 {
        line
    } else {
        commit
    } by {
        let k = keys[i];
        lemma_set(m0, "decision"@, json::Json::Str(decision), k);
        lemma_with_opt(m1, "file"@, file, k);
        lemma_with_opt(m2, "line"@, line, k);
        lemma_with_opt(m3, "commit"@, commit, k);
    }
    assert(keys[0] == "decision"@ && keys[1] == "file"@ && keys[2] == "line"@ && keys[3]
        == "commit"@);
}

/// The body of the creation of an issue holds the title, the description where there is
/// one, and all of the labels.
pub proof fn law_issue_body_holds(
    title: Seq<char>,
    description: Option<Seq<char>>,
    labels: Seq<Seq<char>>,
)
    ensures
        event::text_field(issue_created(title, description, labels), "title"@) == Some(title),
        event::text_field(issue_created(title, description, labels), "description"@) == description,
        event::labels_of(issue_created(title, description, labels)) == labels,
{
    lemma_keys();
    let body = issue_created(title, description, labels);
    let m0: Seq<(Seq<char>, json::Json)> = seq![];
    let m1 = with_text(m0, "title"@, title);
    let m2 = with_opt(m1, "description"@, description);
    let keys = seq!["title"@, "description"@, "labels"@];
    assert forall|i: int| 0 <= i < keys.len() implies json::lookup(body, #[trigger] keys[i])
        == if i == 0 {
        Some(json::Json::Str(title))
    } else if i == 1 {
        match description {
            Some(d) => Some(json::Json::Str(d)),
            None => None,
        }
    } else if labels.len() > 0 {
        Some(event::label_array(labels))
    } else {
        None
    } by {
        let k = keys[i];
        lemma_set(m0, "title"@, json::Json::Str(title), k);
        lemma_with_opt(m1, "description"@, description, k);
        lemma_with_labels(m2, labels, k);
    }
    assert(keys[0] == "title"@ && keys[1] == "description"@ && keys[2] == "labels"@);
    lemma_labels(body, labels);
}

/// The body of the creation of a pull request holds what it was made of, each part under
/// its own key.
pub proof fn law_pr_body_holds(
    title: Seq<char>,
    source_ref: Seq<char>,
    base_ref: Seq<char>,
    source: Oid,
    base: Oid,
    merge_base: Oid,
    description: Option<Seq<char>>,
    labels: Seq<Seq<char>>,
)
    ensures
        ({
            let body = pr_created(
                title,
                source_ref,
                base_ref,
                source,
                base,
                merge_base,
                description,
                labels,
            );
            &&& event::text_field(body, "title"@) == Some(title)
            &&& event::text_field(body, "source_ref"@) == Some(source_ref)
            &&& event::text_field(body, "base_ref"@) == Some(base_ref)
            &&& event::text_field(body, "source_head"@) == Some(oid::oid_text(source))
            &&& event::text_field(body, "base_head"@) == Some(oid::oid_text(base))
            &&& event::text_field(body, "merge_base"@) == Some(oid::oid_text(merge_base))
            &&& event::text_field(body, "description"@) == description
            &&& event::labels_of(body) == labels
        }),
{
    let body = pr_created(
        title,
        source_ref,
        base_ref,
        source,
        base,
        merge_base,
        description,
        labels,
    );
    let keys = seq![
        "title"@,
        "source_ref"@,
        "base_ref"@,
        "source_head"@,
        "base_head"@,
        "merge_base"@,
        "description"@,
        "labels"@,
    ];
    lemma_keys();
    assert forall|i: int| 0 <= i < keys.len() implies json::lookup(body, #[trigger] keys[i])
        == if i == 0 {
        Some(json::Json::Str(title))
    } else if i == 1 {
        Some(json::Json::Str(source_ref))
    } else if i == 2 {
        Some(json::Json::Str(base_ref))
    } else if i == 3 {
        Some(json::Json::Str(oid::oid_text(source)))
    } else if i == 4 {
        Some(json::Json::Str(oid::oid_text(base)))
    } else if i == 5 {
        Some(json::Json::Str(oid::oid_text(merge_base)))
    } else if i == 6 {
        match description {
            Some(d) => Some(json::Json::Str(d)),
            None => None,
        }
    } else if labels.len() > 0 {
        Some(event::label_array(labels))
    } else {
        None
    } by {
        let k = keys[i];
        let m0: Seq<(Seq<char>, json::Json)> = seq![];
        let m1 = with_text(m0, "title"@, title);
        let m2 = with_text(m1, "source_ref"@, source_ref);
        let m3 = with_text(m2, "base_ref"@, base_ref);
        let m4 = with_text(m3, "source_head"@, oid::oid_text(source));
        let m5 = with_text(m4, "base_head"@, oid::oid_text(base));
        let m6 = with_text(m5, "merge_base"@, oid::oid_text(merge_base));
        let m7 = with_opt(m6, "description"@, description);
        lemma_set(m0, "title"@, json::Json::Str(title), k);
        lemma_set(m1, "source_ref"@, json::Json::Str(source_ref), k);
        lemma_set(m2, "base_ref"@, json::Json::Str(base_ref), k);
        lemma_set(m3, "source_head"@, json::Json::Str(oid::oid_text(source)), k);
        lemma_set(m4, "base_head"@, json::Json::Str(oid::oid_text(base)), k);
        lemma_set(m5, "merge_base"@, json::Json::Str(oid::oid_text(merge_base)), k);
        lemma_with_opt(m6, "description"@, description, k);
        lemma_with_labels(m7, labels, k);
    }
    assert(keys[0] == "title"@ && keys[1] == "source_ref"@ && keys[2] == "base_ref"@ && keys[3]
        == "source_head"@ && keys[4] == "base_head"@ && keys[5] == "merge_base"@ && keys[6]
        == "description"@ && keys[7] == "labels"@);
    lemma_labels(body, labels);
}

/// The bodies of a comment, a CI check and a merge hold what they record.
pub proof fn law_short_bodies_hold(
    body: Seq<char>,
    status: Seq<char>,
    plan: Option<Seq<char>>,
    result: Oid,
)
    ensures
        event::text_field(comment(body), "body"@) == Some(body),
        event::text_field(check(status, plan), "status"@) == Some(status),
        event::text_field(check(status, plan), "plan"@) == plan,
        event::text_field(merge(result), "result_commit"@) == Some(oid::oid_text(result)),
{
    lemma_keys();
    let m0: Seq<(Seq<char>, json::Json)> = seq![];
    lemma_set(m0, "body"@, json::Json::Str(body), "body"@);
    lemma_set(m0, "result_commit"@, json::Json::Str(oid::oid_text(result)), "result_commit"@);
    let m1 = with_text(m0, "status"@, status);
    lemma_set(m0, "status"@, json::Json::Str(status), "status"@);
    lemma_set(m0, "status"@, json::Json::Str(status), "plan"@);
    lemma_with_opt(m1, "plan"@, plan, "status"@);
    lemma_with_opt(m1, "plan"@, plan, "plan"@);
}

} // verus!
