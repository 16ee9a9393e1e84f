//! The store's transactions, run against a repository that is held in memory.

use std::collections::HashMap;

use git_forge::event::{Event, EventKind, JsonObject, JsonValue};
use git_forge::oid::Oid;
use git_forge::records::{pending_check_body, pr_created_body};
use git_forge::refs::{transaction_input, update_lines, RefName, RefUpdate};
use git_forge::store::{
    check_creation, counter_next, counter_payload, creates_pr, event_message, event_payload, issue_ref,
    pr_base_ref, pr_head_ref, pr_meta_ref, pr_result_ref, pr_source_ref, read_counter_payload,
    ChainReader, Payload, StoreError, COUNTER_REF, GENESIS_MSG, ZERO_OID,
};
use git_forge::transactions::{
    completion_lines, create_pending_result, delete_pending_result, deletion_outcome,
    outcome_error, Allocation, Append, Creation, Deletion, Outcome, Reply, Request, Take,
};

struct Commit {
    parents: Vec<Oid>,
    event: Payload,
    counter: Payload,
    message: String,
}

/// What somebody else does just before a transaction.
enum Meddling {
    Point(String, Oid),
    Append(String, Event),
    TakeNumber,
}

/// A repository in memory. `meddling` comes before each transaction, from the back.
struct Repo {
    refs: HashMap<String, Oid>,
    commits: HashMap<String, Commit>,
    meddling: Vec<Meddling>,
}

fn event(kind: EventKind, entity: &str, id: u64, actor: &str, body: &[(&str, JsonValue)]) -> Event {
    let mut map = JsonObject::new();
    for (k, v) in body {
        map.insert(k.to_string(), v.clone());
    }
    let numeric = entity
        .bytes()
        .fold(0u64, |acc, b| acc.wrapping_mul(31).wrapping_add(b as u64));
    Event::new_with_id(
        &format!("22222222-2222-4222-8222-{:012x}", (numeric << 8) ^ id),
        kind,
        entity,
        id,
        actor,
        map,
    )
    .expect("fixture id is uuid v4")
}

impl Repo {
    fn new() -> Repo {
        Repo {
            refs: HashMap::new(),
            commits: HashMap::new(),
            meddling: Vec::new(),
        }
    }

    fn write(&mut self, commit: Commit) -> Oid {
        let n = self.commits.len() as u64 + 1;
        let oid = Oid {
            head: n << 32,
            middle: 7,
            tail: n as u32,
        };
        self.commits.insert(oid.to_hex(), commit);
        oid
    }

    fn plain(&mut self, parents: Vec<Oid>, message: &str) -> Oid {
        self.write(Commit {
            parents,
            event: Payload::Absent,
            counter: Payload::Absent,
            message: message.to_string(),
        })
    }

    fn commit(&self, o: Oid) -> &Commit {
        &self.commits[&o.to_hex()]
    }

    fn tip(&self, path: &str) -> Option<Oid> {
        self.refs.get(path).copied()
    }

    /// What `git update-ref --stdin` does with the input of a transaction.
    fn transact(&mut self, lines: &[String]) -> bool {
        match self.meddling.pop() {
            Some(Meddling::Point(path, o)) => {
                self.refs.insert(path, o);
            }
            Some(Meddling::Append(path, e)) => {
                let parents = self.tip(&path).into_iter().collect();
                let o = self.write_event(&e, parents);
                self.refs.insert(path, o);
            }
            Some(Meddling::TakeNumber) => {
                let held = std::mem::take(&mut self.meddling);
                self.allocate_id().unwrap();
                self.meddling = held;
            }
            None => {}
        }
        let input = transaction_input(lines);
        let mut words: Vec<&str> = input.lines().collect();
        assert_eq!(words.remove(0), "start");
        assert_eq!(words.pop(), Some("commit"));
        assert_eq!(words.pop(), Some("prepare"));
        let mut changes: Vec<(String, Option<Oid>)> = Vec::new();
        for line in words {
            let parts: Vec<&str> = line.split(' ').collect();
            assert_eq!(parts.len(), 4);
            assert_eq!(parts[0], "update");
            let read = |s: &str| {
                if s == ZERO_OID {
                    None
                } else {
                    Some(Oid::from_hex(s).unwrap())
                }
            };
            if self.tip(parts[1]) != read(parts[3]) {
                return false;
            }
            changes.push((parts[1].to_string(), read(parts[2])));
        }
        for (path, new) in changes {
            match new {
                Some(o) => self.refs.insert(path, o),
                None => self.refs.remove(&path),
            };
        }
        true
    }

    fn write_event(&mut self, e: &Event, parents: Vec<Oid>) -> Oid {
        self.write(Commit {
            parents,
            event: Payload::Blob(event_payload(e)),
            counter: Payload::Absent,
            message: event_message(e),
        })
    }

    fn reply(&mut self, request: Request, updates: &[RefUpdate], events: &[Event]) -> Reply {
        match request {
            Request::ReadTip(name) => Reply::Tip(self.tip(&name.path())),
            Request::ReadCounter(o) => match read_counter_payload(&self.commit(o).counter) {
                Ok(n) => Reply::Number(n),
                Err(_) => Reply::Failed,
            },
            Request::WriteCounter { next, parent } => Reply::Object(self.write(Commit {
                parents: parent.into_iter().collect(),
                event: Payload::Absent,
                counter: Payload::Blob(counter_payload(next)),
                message: "forge:counter".to_string(),
            })),
            Request::WriteGenesis => Reply::Object(self.plain(Vec::new(), GENESIS_MSG)),
            Request::WriteEvent { parent } => {
                Reply::Object(self.write_event(&events[0], parent.into_iter().collect()))
            }
            Request::WriteCreated { id, parent } => {
                let mut e = events[0].clone();
                e.entity_id = id;
                Reply::Object(self.write_event(&e, vec![parent]))
            }
            Request::WriteCheck { id, parent } => {
                let mut e = events[1].clone();
                e.entity_id = id;
                Reply::Object(self.write_event(&e, vec![parent]))
            }
            Request::Transact => {
                if self.transact(&update_lines(updates)) {
                    Reply::Applied
                } else {
                    Reply::Rejected
                }
            }
            Request::Nothing => Reply::Failed,
        }
    }

    fn allocate_id(&mut self) -> Result<u64, StoreError> {
        let mut s = Allocation::start();
        loop {
            if let Allocation::Done(outcome) = s {
                return match outcome {
                    Outcome::Number(n) => Ok(n),
                    o => Err(outcome_error(o, StoreError::Command("refused".into()))),
                };
            }
            let reply = self.reply(s.request(), &s.updates(), &[]);
            s = s.next(reply);
        }
    }

    fn append_event(&mut self, name: RefName, e: &Event) -> Result<Oid, StoreError> {
        let mut s = Append::start();
        loop {
            if let Append::Done(outcome) = s {
                return match outcome {
                    Outcome::Object(o) => Ok(o),
                    o => Err(outcome_error(o, StoreError::Command("refused".into()))),
                };
            }
            let reply = self.reply(s.request(name), &s.updates(name), std::slice::from_ref(e));
            s = s.next(reply);
        }
    }

    fn create_pr(
        &mut self,
        title: &str,
        source: Oid,
        base: Oid,
        merge_base: Oid,
    ) -> Result<u64, StoreError> {
        let body = pr_created_body(title, "feature", "main", source, base, merge_base, None, &[]);
        let events = [
            Event::new(EventKind::PrCreated, "pr", 0, "a@x", body),
            Event::new(EventKind::CiCheck, "pr", 0, "a@x", pending_check_body()),
        ];
        let mut s = Creation::start();
        loop {
            if let Creation::Done(outcome) = s {
                return match outcome {
                    Outcome::Number(n) => Ok(n),
                    o => Err(outcome_error(o, StoreError::Command("refused".into()))),
                };
            }
            let reply = self.reply(s.request(), &s.updates(source, base), &events);
            s = s.next(reply);
        }
    }

    fn read_chain(&self, path: &str) -> Result<Vec<Event>, StoreError> {
        let mut reader = ChainReader::new();
        let mut at = self.tip(path);
        while let Some(o) = at {
            reader.read(&self.commit(o).event)?;
            at = self.commit(o).parents.first().copied();
        }
        Ok(reader.finish())
    }

    fn counter_next(&self) -> u64 {
        match self.tip(COUNTER_REF) {
            Some(o) => counter_next(Some(&self.commit(o).counter)).unwrap(),
            None => counter_next(None).unwrap(),
        }
    }

    fn event_at(&self, o: Oid) -> Event {
        match &self.commit(o).event {
            Payload::Blob(b) => Event::from_json(std::str::from_utf8(b).unwrap()).unwrap(),
            _ => panic!("no event"),
        }
    }

    fn base_and_head(&mut self) -> (Oid, Oid) {
        let base = self.plain(Vec::new(), "base");
        let head = self.plain(vec![base], "head");
        (base, head)
    }
}

#[test]
fn lazy_first_allocation_is_atomic() {
    let mut store = Repo::new();
    let id = store.allocate_id().unwrap();
    assert_eq!(id, 1, "first allocation must be id 1");
    assert!(store.tip(COUNTER_REF).is_some());
    assert_eq!(store.counter_next(), 2);
    assert!(store.tip(&issue_ref(1)).is_some());
}

#[test]
fn sequential_ids_advance_counter() {
    let mut store = Repo::new();
    assert_eq!(store.allocate_id().unwrap(), 1);
    assert_eq!(store.allocate_id().unwrap(), 2);
    assert_eq!(store.allocate_id().unwrap(), 3);
    assert_eq!(store.counter_next(), 4);
    for n in 1..=3 {
        assert!(store.tip(&issue_ref(n)).is_some());
    }
}

#[test]
fn counter_next_entry_reads_chain_tip() {
    let mut store = Repo::new();
    // Absent counter: best-effort bound, first id is 1 (no error).
    assert_eq!(store.counter_next(), 1);
    // After each allocation the counter holds the chain-tip value.
    assert_eq!(store.allocate_id().unwrap(), 1);
    assert_eq!(store.counter_next(), 2);
    assert_eq!(store.allocate_id().unwrap(), 2);
    assert_eq!(store.counter_next(), 3);
}

#[test]
fn counter_is_a_versioned_chain() {
    let mut store = Repo::new();
    assert_eq!(store.allocate_id().unwrap(), 1); // counter commit {v1,next:2} (root)
    assert_eq!(store.allocate_id().unwrap(), 2); // counter commit {v1,next:3}
    assert_eq!(store.allocate_id().unwrap(), 3); // counter commit {v1,next:4}

    // Walk the counter chain from tip: each commit's sole parent is the
    // previous counter commit; the newest has next=4 and the root has next=2.
    let mut oid = store.tip(COUNTER_REF).unwrap();
    let mut nexts = Vec::new();
    loop {
        let commit = store.commit(oid);
        let next = read_counter_payload(&commit.counter).unwrap();
        nexts.push(next);
        let expect = if next == 2 { 0 } else { 1 };
        assert_eq!(
            commit.parents.len(),
            expect,
            "counter commit next={next} must have {expect} parent(s), got {}",
            commit.parents.len()
        );
        match commit.parents.first() {
            Some(p) => oid = *p,
            None => break,
        }
    }
    assert_eq!(
        nexts,
        [4, 3, 2],
        "counter is a chain oldest→tip: next values"
    );
    assert_eq!(nexts.len(), 3, "exactly three counter commits in the chain");
}

#[test]
fn append_and_read_chain_roundtrip() {
    let mut store = Repo::new();
    let id = store.allocate_id().unwrap();
    let created = event(
        EventKind::IssueCreated,
        "issue",
        id,
        "a@x",
        &[("title", JsonValue::String("T".into()))],
    );
    let comment = event(
        EventKind::IssueComment,
        "issue",
        id,
        "b@x",
        &[("body", JsonValue::String("hello".into()))],
    );
    store.append_event(RefName::Issue(id), &created).unwrap();
    store.append_event(RefName::Issue(id), &comment).unwrap();
    let chain = store.read_chain(&issue_ref(id)).unwrap();
    assert_eq!(chain.len(), 2);
    assert_eq!(chain[0].kind, EventKind::IssueCreated);
    assert_eq!(chain[1].kind, EventKind::IssueComment);
    assert_eq!(
        chain[1].body.get("body").and_then(JsonValue::as_str),
        Some("hello")
    );
    assert_eq!(chain[0].id, created.id);
    assert_eq!(chain[1].id, comment.id);
    let tip = store.tip(&issue_ref(id)).unwrap();
    assert_eq!(store.commit(tip).message, "forge:issue.comment:1");
}

#[test]
fn append_cas_retry_retains_uuid() {
    let mut store = Repo::new();
    let id = store.allocate_id().unwrap();
    let r = issue_ref(id);
    let a = event(
        EventKind::IssueComment,
        "issue",
        id,
        "a@x",
        &[("body", JsonValue::String("first".into()))],
    );
    let b = event(
        EventKind::IssueComment,
        "issue",
        id + 1000,
        "b@x",
        &[("body", JsonValue::String("second".into()))],
    );
    // The other comment comes in between.
    store.meddling = vec![Meddling::Append(r.clone(), b.clone())];
    store.append_event(RefName::Issue(id), &a).unwrap();
    let chain = store.read_chain(&r).unwrap();
    assert_eq!(
        chain.len(),
        2,
        "both comments must be present after CAS retry"
    );
    let ids: Vec<&str> = chain.iter().map(|e| e.id.as_str()).collect();
    assert!(ids.contains(&a.id.as_str()), "uuid of a retained: {ids:?}");
    assert!(ids.contains(&b.id.as_str()), "uuid of b retained: {ids:?}");
}

#[test]
fn stale_tip_rejected_without_corruption() {
    let mut store = Repo::new();
    let id = store.allocate_id().unwrap();
    let comment = |actor: &str, text: &str| {
        event(
            EventKind::IssueComment,
            "issue",
            id,
            actor,
            &[("body", JsonValue::String(text.into()))],
        )
    };
    let tip1 = store
        .append_event(RefName::Issue(id), &comment("a@x", "one"))
        .unwrap();
    let comp_tip = store
        .append_event(RefName::Issue(id), &comment("c@x", "competing"))
        .unwrap();
    assert_ne!(comp_tip, tip1);
    let final_tip = store
        .append_event(RefName::Issue(id), &comment("b@x", "two"))
        .unwrap();
    assert_ne!(final_tip, comp_tip, "append must move the ref forward");
    let chain = store.read_chain(&issue_ref(id)).unwrap();
    assert_eq!(chain.len(), 3);
    let bodies: Vec<&str> = chain
        .iter()
        .filter_map(|e| e.body.get("body").and_then(JsonValue::as_str))
        .collect();
    assert!(bodies.contains(&"one"));
    assert!(bodies.contains(&"two"));
    assert!(bodies.contains(&"competing"));
}

#[test]
fn concurrent_allocation_returns_distinct_ids() {
    let mut store = Repo::new();
    // Somebody else takes a number between the read and the transaction.
    store.meddling = vec![Meddling::TakeNumber];
    let b = store.allocate_id().unwrap();
    assert_eq!(b, 2, "distinct sequential ids from absent counter");
    assert_eq!(store.counter_next(), 3);
    for n in [1, 2] {
        assert!(store.tip(&issue_ref(n)).is_some());
    }
}

#[test]
fn allocation_gives_up_after_three_collisions() {
    let mut store = Repo::new();
    store.meddling = vec![
        Meddling::TakeNumber,
        Meddling::TakeNumber,
        Meddling::TakeNumber,
    ];
    assert!(matches!(store.allocate_id(), Err(StoreError::Exhausted)));
    assert_eq!(store.counter_next(), 4);
    // Two collisions are borne.
    store.meddling = vec![Meddling::TakeNumber, Meddling::TakeNumber];
    assert_eq!(store.allocate_id().unwrap(), 6);
}

#[test]
fn append_gives_up_after_three_collisions() {
    let mut store = Repo::new();
    let id = store.allocate_id().unwrap();
    let e = event(EventKind::IssueClose, "issue", id, "a@x", &[]);
    let (x, y) = store.base_and_head();
    let path = issue_ref(id);
    store.meddling = vec![
        Meddling::Point(path.clone(), x),
        Meddling::Point(path.clone(), y),
        Meddling::Point(path.clone(), x),
    ];
    assert!(matches!(
        store.append_event(RefName::Issue(id), &e),
        Err(StoreError::Exhausted)
    ));
    assert_eq!(store.tip(&path), Some(x));
}

#[test]
fn counter_collision_aborts_without_partial_state() {
    let mut store = Repo::new();
    let genesis = store.plain(Vec::new(), "forge:genesis");
    store.refs.insert(issue_ref(1), genesis);
    let res = store.allocate_id();
    assert!(
        res.is_err(),
        "allocation must fail when entity ref pre-exists"
    );
    assert!(
        store.tip(COUNTER_REF).is_none(),
        "counter must not be created on a failed transaction"
    );
}

#[test]
fn allocate_id_refuses_when_entity_ref_preexists() {
    let mut store = Repo::new();
    let base = store.plain(Vec::new(), "base");
    store.refs.insert(issue_ref(1), base);
    let res = store.allocate_id();
    assert!(
        matches!(res, Err(StoreError::RefExists(_))),
        "a pre-existing entity ref must be RefExists, got: {res:?}"
    );
    assert_eq!(
        res.unwrap_err().to_text(),
        "entity ref already exists: refs/forge/issues/1"
    );
    assert!(
        store.tip(COUNTER_REF).is_none(),
        "counter must be untouched by a refused allocation"
    );
}

#[test]
fn create_pr_creates_head_meta_source_base_atomically() {
    let mut repo = Repo::new();
    let (base, head) = repo.base_and_head();
    let merge_base = base;
    let id = repo.create_pr("PR title", head, base, merge_base).unwrap();
    assert_eq!(id, 1, "first PR gets id 1");

    // /meta stays pinned at the immutable pr.created snapshot; /head advances
    // one commit past it to the pending ci.check child.
    let head_tip = repo.tip(&pr_head_ref(1)).unwrap();
    let meta_tip = repo.tip(&pr_meta_ref(1)).unwrap();
    assert_ne!(
        head_tip, meta_tip,
        "head must advance past the pr.created snapshot (pending ci.check)"
    );
    assert_eq!(
        repo.commit(meta_tip).parents.len(),
        1,
        "pr.created commit's parent is the genesis root"
    );
    let meta_body = repo.event_at(meta_tip);
    assert_eq!(meta_body.kind, EventKind::PrCreated);
    assert_eq!(meta_body.entity_id, 1);
    assert_eq!(
        meta_body.body.get("title").unwrap().as_str(),
        Some("PR title")
    );
    assert_eq!(
        meta_body.body.get("source_head").unwrap().as_str(),
        Some(head.to_hex().as_str())
    );
    assert_eq!(
        meta_body.body.get("base_head").unwrap().as_str(),
        Some(base.to_hex().as_str())
    );
    assert_eq!(
        meta_body.body.get("merge_base").unwrap().as_str(),
        Some(merge_base.to_hex().as_str())
    );

    // /head is the pending ci.check child: sole parent is the pr.created commit
    // (/meta), and its event payload records the pending CI Check marker.
    let head_parents = &repo.commit(head_tip).parents;
    assert_eq!(head_parents.len(), 1, "ci.check commit has one parent");
    assert_eq!(
        head_parents[0], meta_tip,
        "ci.check's parent is the pr.created commit"
    );
    let head_body = repo.event_at(head_tip);
    assert_eq!(head_body.kind, EventKind::CiCheck);
    assert_eq!(head_body.entity_id, 1);
    assert_eq!(
        head_body.body.get("status").unwrap().as_str(),
        Some("pending")
    );
    assert_eq!(head_body.actor, "a@x");
    assert_eq!(repo.tip(&pr_source_ref(1)), Some(head));
    assert_eq!(repo.tip(&pr_base_ref(1)), Some(base));

    // Next allocation takes id 2.
    let id2 = repo.create_pr("second", head, base, merge_base).unwrap();
    assert_eq!(id2, 2, "second PR gets id 2");
    assert!(repo.tip(&pr_head_ref(2)).is_some());
    // Issues and pull requests share their numbers.
    assert_eq!(repo.allocate_id().unwrap(), 3);
}

#[test]
fn create_pr_rejects_preexisting_ref_without_touching_counter() {
    let mut repo = Repo::new();
    let (base, head) = repo.base_and_head();
    // Pre-create the ref the fresh counter would target (#1) → forced collision.
    repo.refs.insert(pr_head_ref(1), head);
    let res = repo.create_pr("T", head, base, base);
    assert!(res.is_err());
    assert!(matches!(res, Err(StoreError::RefExists(_))));
    assert!(
        repo.tip(COUNTER_REF).is_none(),
        "counter must be untouched by a failed create"
    );
    assert!(
        repo.tip(&pr_meta_ref(1)).is_none(),
        "no partial meta ref after failed create"
    );
    assert!(
        repo.tip(&pr_source_ref(1)).is_none(),
        "no partial source ref after failed create"
    );
    assert!(
        repo.tip(&pr_base_ref(1)).is_none(),
        "no partial base ref after failed create"
    );
    // The pre-created head ref is untouched.
    assert_eq!(repo.tip(&pr_head_ref(1)), Some(head));
}

#[test]
fn create_pr_failed_publication_leaves_counter_and_pr_refs_unchanged() {
    let mut repo = Repo::new();
    let (base, head) = repo.base_and_head();
    repo.refs.insert(pr_source_ref(1), head);
    let res = repo.create_pr("T", head, base, base);
    assert!(res.is_err());
    assert!(matches!(res, Err(StoreError::RefExists(_))));
    assert!(
        repo.tip(COUNTER_REF).is_none(),
        "counter must be untouched by a failed publication"
    );
    assert!(
        repo.tip(&pr_head_ref(1)).is_none(),
        "no partial head ref after failed publication"
    );
    assert!(
        repo.tip(&pr_meta_ref(1)).is_none(),
        "no partial meta ref after failed publication"
    );
    assert!(
        repo.tip(&pr_base_ref(1)).is_none(),
        "no partial base ref after failed publication"
    );
    assert_eq!(
        repo.tip(&pr_source_ref(1)),
        Some(head),
        "the pre-existing source ref must be untouched"
    );
}

#[test]
fn create_pr_collides_on_each_of_its_refs_and_retries_on_the_counter() {
    for path in [pr_meta_ref(1), pr_base_ref(1)] {
        let mut repo = Repo::new();
        let (base, head) = repo.base_and_head();
        repo.refs.insert(path, head);
        assert_eq!(
            repo.create_pr("T", head, base, base).unwrap_err().to_text(),
            "entity ref already exists: refs/forge/prs/1/head"
        );
    }
    let mut repo = Repo::new();
    let (base, head) = repo.base_and_head();
    repo.meddling = vec![Meddling::TakeNumber, Meddling::TakeNumber];
    assert_eq!(repo.create_pr("T", head, base, base).unwrap(), 3);
    repo.meddling = vec![
        Meddling::TakeNumber,
        Meddling::TakeNumber,
        Meddling::TakeNumber,
    ];
    assert!(matches!(
        repo.create_pr("T", head, base, base),
        Err(StoreError::Exhausted)
    ));
}

#[test]
fn read_chain_on_absent_ref_is_empty() {
    let store = Repo::new();
    let chain = store
        .read_chain(&issue_ref(999))
        .expect("absent ref must read as an empty chain");
    assert!(chain.is_empty(), "absent ref chain must be empty");
}

#[test]
fn read_chain_rejects_event_json_that_is_not_a_blob() {
    let mut store = Repo::new();
    let base = store.write(Commit {
        parents: Vec::new(),
        event: Payload::NotBlob,
        counter: Payload::Absent,
        message: "base".to_string(),
    });
    store.refs.insert(issue_ref(1), base);
    let res = store.read_chain(&issue_ref(1));
    assert!(
        matches!(res, Err(StoreError::InvalidState(_))),
        "a subtree at event.json must be InvalidState, got: {res:?}"
    );
    assert_eq!(
        res.unwrap_err().to_text(),
        "invalid store state: .forge/event.json is not a blob"
    );
}

#[test]
fn read_chain_rejects_non_utf8_event_json() {
    let mut store = Repo::new();
    let base = store.write(Commit {
        parents: Vec::new(),
        event: Payload::Blob(vec![0xff, 0xfe, 0x00, 0x01]),
        counter: Payload::Absent,
        message: "base".to_string(),
    });
    store.refs.insert(issue_ref(1), base);
    let res = store.read_chain(&issue_ref(1));
    assert!(
        matches!(res, Err(StoreError::InvalidState(_))),
        "a non-UTF8 event blob must be InvalidState, got: {res:?}"
    );
    assert_eq!(
        res.unwrap_err().to_text(),
        "invalid store state: event.json not valid UTF-8"
    );
}

#[test]
fn read_chain_rejects_a_payload_that_is_no_event() {
    let mut reader = ChainReader::new();
    assert!(reader.read(&Payload::Absent).is_ok());
    assert!(matches!(
        reader.read(&Payload::Blob(b"{}".to_vec())),
        Err(StoreError::MissingEvent)
    ));
}

#[test]
fn counter_payloads_that_are_no_counter_are_rejected() {
    let text = |p: Payload| read_counter_payload(&p).unwrap_err().to_text();
    assert_eq!(
        text(Payload::Absent),
        "invalid store state: counter tree missing counter.json"
    );
    assert_eq!(
        text(Payload::NotBlob),
        "invalid store state: counter.json is not a blob"
    );
    assert_eq!(
        text(Payload::Blob(vec![0xff])),
        "invalid store state: counter.json not valid UTF-8"
    );
    assert_eq!(
        text(Payload::Blob(b"{\"v\":1}".to_vec())),
        "invalid store state: counter.json missing next"
    );
    assert_eq!(
        text(Payload::Blob(b"{\"v\":1,\"next\":99999999999999999999}".to_vec())),
        "invalid store state: counter next not a u64"
    );
    assert_eq!(
        read_counter_payload(&Payload::Blob(counter_payload(u64::MAX))).unwrap(),
        u64::MAX
    );
    assert_eq!(counter_payload(7), b"{\"v\":1,\"next\":7}".to_vec());
}

#[test]
fn a_machine_that_is_told_of_a_failure_ends() {
    let s = Allocation::start().next(Reply::Failed);
    assert_eq!(s, Allocation::Done(Outcome::Failed));
    assert_eq!(s.request(), Request::Nothing);
    assert!(s.updates().is_empty());
    let s = Append::start().next(Reply::Applied);
    assert_eq!(s, Append::Done(Outcome::Failed));
    let s = Creation::start().next(Reply::Rejected);
    assert_eq!(s, Creation::Done(Outcome::Failed));
    assert_eq!(
        outcome_error(Outcome::Failed, StoreError::MissingRef),
        StoreError::MissingRef
    );
}

#[test]
fn a_refusal_without_a_reason_is_told_as_it_is() {
    let mut repo = Repo::new();
    let o = repo.plain(Vec::new(), "x");
    let s = Allocation::start()
        .next(Reply::Tip(None))
        .next(Reply::Object(o))
        .next(Reply::Object(o))
        .next(Reply::Rejected)
        .next(Reply::Tip(None))
        .next(Reply::Tip(None));
    assert_eq!(s, Allocation::Done(Outcome::Rejected));
    let s = Append::start()
        .next(Reply::Tip(Some(o)))
        .next(Reply::Object(o))
        .next(Reply::Rejected)
        .next(Reply::Tip(Some(o)));
    assert_eq!(s, Append::Done(Outcome::Rejected));
}

#[test]
fn a_pending_result_is_kept_dropped_and_completed() {
    let mut repo = Repo::new();
    let (base, head) = repo.base_and_head();
    let keep = update_lines(&[create_pending_result(4, head)]);
    let discard = update_lines(&[delete_pending_result(4, head)]);
    assert!(repo.transact(&keep));
    assert_eq!(repo.tip(&pr_result_ref(4)), Some(head));
    assert!(!repo.transact(&keep), "expected absence");
    assert!(repo.transact(&discard));
    assert_eq!(repo.tip(&pr_result_ref(4)), None);
    assert_eq!(deletion_outcome(true, None), Deletion::Deleted);
    assert_eq!(deletion_outcome(false, None), Deletion::Gone);
    assert_eq!(deletion_outcome(false, Some(base)), Deletion::Left);

    // The completion moves all three refs, or none.
    let merged = repo.plain(vec![base], "forge:pr.merge:4");
    repo.refs.insert("refs/heads/main".to_string(), base);
    repo.refs.insert(pr_head_ref(4), base);
    let lines = completion_lines(4, "main", base, head, base, merged);
    assert!(!repo.transact(&lines), "no pending result");
    assert_eq!(repo.tip("refs/heads/main"), Some(base));
    assert!(repo.transact(&keep));
    assert!(repo.transact(&lines));
    assert_eq!(repo.tip("refs/heads/main"), Some(head));
    assert_eq!(repo.tip(&pr_head_ref(4)), Some(merged));
    assert_eq!(repo.tip(&pr_result_ref(4)), None);
    assert_eq!(
        lines[0],
        format!("update refs/forge/prs/4/result {ZERO_OID} {}", head.to_hex())
    );
}

#[test]
fn which_commits_create_a_pull_request() {
    let mut repo = Repo::new();
    let (base, head) = repo.base_and_head();
    repo.create_pr("T", head, base, base).unwrap();
    let meta = repo.tip(&pr_meta_ref(1)).unwrap();
    let tip = repo.tip(&pr_head_ref(1)).unwrap();
    assert_eq!(creates_pr(&repo.commit(meta).event), Ok(true));
    assert_eq!(creates_pr(&repo.commit(tip).event), Ok(false));
    assert_eq!(creates_pr(&Payload::Absent), Ok(false));
    assert_eq!(
        creates_pr(&Payload::Blob(b"{}".to_vec())),
        Err(StoreError::MissingEvent)
    );
    assert!(creates_pr(&Payload::NotBlob).is_err());
}

#[test]
fn a_chain_must_be_anchored_at_its_creation() {
    let mut repo = Repo::new();
    let (base, head) = repo.base_and_head();
    repo.create_pr("T", head, base, base).unwrap();
    let meta = repo.tip(&pr_meta_ref(1)).unwrap();
    assert!(check_creation(&[meta], Some(meta)).is_ok());
    // A second creation outside of the metadata commit.
    assert!(check_creation(&[head, meta], Some(meta)).is_err());
    // None at all, another place, and no metadata.
    assert!(check_creation(&[], Some(meta)).is_err());
    assert!(check_creation(&[meta], Some(head)).is_err());
    assert_eq!(
        check_creation(&[meta], None).unwrap_err().to_text(),
        "invalid store state: PR chain is not anchored at its creation"
    );
}

#[test]
fn a_collision_is_told_where_a_ref_is_there() {
    let found = Oid {
        head: 0,
        middle: 0,
        tail: 5,
    };
    let take = Take {
        tries: 0,
        tip: Some(found),
        id: 7,
        next: 8,
    };
    let told = Creation::Done(Outcome::RefExists(RefName::PrHead(7)));
    for (s, asked) in [
        (Creation::CheckHead(take), RefName::PrHead(7)),
        (Creation::CheckMeta(take), RefName::PrMeta(7)),
        (Creation::CheckSource(take), RefName::PrSource(7)),
        (Creation::CheckBase(take), RefName::PrBase(7)),
    ] {
        assert_eq!(s.request(), Request::ReadTip(asked));
        assert_eq!(s.next(Reply::Tip(Some(found))), told);
        assert_ne!(s.next(Reply::Tip(None)), told);
    }
    // The refs are asked for only where the counter has not moved.
    let s = Creation::CheckCounter(take);
    assert_eq!(s.next(Reply::Tip(Some(found))), Creation::CheckHead(take));
    assert_eq!(s.next(Reply::Tip(None)), Creation::ReadCounter { tries: 1 });
    let s = Allocation::CheckCounter(take);
    assert_eq!(s.next(Reply::Tip(Some(found))), Allocation::CheckEntity(take));
    assert_eq!(
        Allocation::CheckEntity(take).next(Reply::Tip(Some(found))),
        Allocation::Done(Outcome::RefExists(RefName::Issue(7)))
    );
}
