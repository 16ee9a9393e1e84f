//! The store's transactions as state machines: each state asks for one piece of
//! work on the repository, and the reply to it leads to the next state. Whoever
//! runs a machine does the work and hands back the replies.

use crate::oid::Oid;
use crate::refs;
use crate::refs::{RefName, RefUpdate};
use crate::store;
use crate::store::{StoreError, MAX_ALLOC_RETRIES, MAX_APPEND_RETRIES};
use vstd::prelude::*;

verus! {

/// The work that a machine asks for.
#[derive(Debug, Clone, Copy, PartialEq, Eq, Structural)]
pub enum Request {
    /// Read what a ref holds.
    ReadTip(RefName),
    /// Read the number in a counter commit.
    ReadCounter(Oid),
    /// Write a counter commit.
    WriteCounter { next: u64, parent: Option<Oid> },
    /// Write an empty root commit.
    WriteGenesis,
    /// Write the commit of the event that is to be appended.
    WriteEvent { parent: Option<Oid> },
    /// Write the commit of the event that creates a pull request.
    WriteCreated { id: u64, parent: Oid },
    /// Write the commit of a pending CI check.
    WriteCheck { id: u64, parent: Oid },
    /// Apply the machine's updates in one transaction.
    Transact,
    /// Nothing: the machine has come to its end.
    Nothing,
}

/// The reply to a request.
#[derive(Debug, Clone, Copy, PartialEq, Eq, Structural)]
pub enum Reply {
    /// What a ref holds.
    Tip(Option<Oid>),
    /// The number in a counter commit.
    Number(u64),
    /// The commit that was written.
    Object(Oid),
    /// The transaction was applied.
    Applied,
    /// The transaction was refused, and nothing has changed.
    Rejected,
    /// The work failed.
    Failed,
}

/// How a machine ended.
#[derive(Debug, Clone, Copy, PartialEq, Eq, Structural)]
pub enum Outcome {
    /// Done, with this number.
    Number(u64),
    /// Done, with this commit.
    Object(Oid),
    /// A ref that was to be created exists.
    RefExists(RefName),
    /// The last transaction was refused, for no reason that a retry would cure.
    Rejected,
    /// Some other work failed.
    Failed,
    /// All tries met a concurrent change.
    Exhausted,
}

/// The error of a machine that ended with `outcome`, where `last` is the error of
/// the work that failed last.
pub fn outcome_error(outcome: Outcome, last: StoreError) -> (r: StoreError)
    ensures
        match outcome {
            Outcome::RefExists(name) => r matches StoreError::RefExists(p) && p@ == refs::ref_path(
                name,
            ),
            Outcome::Exhausted => r is Exhausted,
            _ => r == last,
        },
{
    match outcome {
        Outcome::RefExists(name) => StoreError::RefExists(name.path()),
        Outcome::Exhausted => StoreError::Exhausted,
        _ => last,
    }
}

// ---------------------------------------------------------------------------
// The counter

/// One try of taking a number: the counter commit that was found, the number that
/// it holds, and the number that is to follow.
#[derive(Debug, Clone, Copy, PartialEq, Eq, Structural)]
pub struct Take {
    pub tries: u32,
    pub tip: Option<Oid>,
    pub id: u64,
    pub next: u64,
}

/// The number in the counter: the one in its commit, and 1 without a counter.
pub open spec fn counter_value(tip: Option<Oid>, number: spec_fn(Oid) -> int) -> int {
    match tip {
        Some(o) => number(o),
        None => 1,
    }
}

/// Does the try hold what the counter says?
pub open spec fn take_ok(t: Take, number: spec_fn(Oid) -> int) -> bool {
    t.id == counter_value(t.tip, number) && t.next == t.id + 1
}

// ---------------------------------------------------------------------------
// Allocation of an issue

/// The state of the allocation of an issue's number.
#[derive(Debug, Clone, Copy, PartialEq, Eq, Structural)]
pub enum Allocation {
    ReadCounter { tries: u32 },
    ReadNext { tries: u32, tip: Oid },
    WriteCounter(Take),
    WriteGenesis { take: Take, counter: Oid },
    Apply { take: Take, counter: Oid, genesis: Oid },
    CheckCounter(Take),
    CheckEntity(Take),
    Done(Outcome),
}

/// The state after a try that met a concurrent change.
pub open spec fn allocation_retry(tries: u32) -> Allocation {
    if tries + 1 < MAX_ALLOC_RETRIES {
        Allocation::ReadCounter { tries: (tries + 1) as u32 }
    } else {
        Allocation::Done(Outcome::Exhausted)
    }
}

/// The state after the reply to what `s` asks for.
pub open spec fn allocation_after(s: Allocation, reply: Reply) -> Allocation {
    match (s, reply) {
        (Allocation::Done(o), _) => s,
        (Allocation::ReadCounter { tries }, Reply::Tip(None)) => Allocation::WriteCounter(
            Take { tries, tip: None, id: 1, next: 2 },
        ),
        (Allocation::ReadCounter { tries }, Reply::Tip(Some(tip))) => Allocation::ReadNext {
            tries,
            tip,
        },
        (Allocation::ReadNext { tries, tip }, Reply::Number(n)) => Allocation::WriteCounter(
            Take { tries, tip: Some(tip), id: n, next: (n + 1) as u64 },
        ),
        (Allocation::WriteCounter(take), Reply::Object(counter)) => Allocation::WriteGenesis {
            take,
            counter,
        },
        (Allocation::WriteGenesis { take, counter }, Reply::Object(genesis)) => Allocation::Apply {
            take,
            counter,
            genesis,
        },
        (Allocation::Apply { take, counter, genesis }, Reply::Applied) => Allocation::Done(
            Outcome::Number(take.id),
        ),
        (Allocation::Apply { take, counter, genesis }, Reply::Rejected) => Allocation::CheckCounter(
            take,
        ),
        (Allocation::CheckCounter(take), Reply::Tip(now)) => if now != take.tip {
            allocation_retry(take.tries)
        } else {
            Allocation::CheckEntity(take)
        },
        (Allocation::CheckEntity(take), Reply::Tip(Some(_))) => Allocation::Done(
            Outcome::RefExists(RefName::Issue(take.id)),
        ),
        (Allocation::CheckEntity(take), Reply::Tip(None)) => Allocation::Done(Outcome::Rejected),
        _ => Allocation::Done(Outcome::Failed),
    }
}

/// What `s` asks for.
pub open spec fn allocation_request(s: Allocation) -> Request {
    match s {
        Allocation::ReadCounter { tries } => Request::ReadTip(RefName::Counter),
        Allocation::ReadNext { tries, tip } => Request::ReadCounter(tip),
        Allocation::WriteCounter(take) => Request::WriteCounter {
            next: take.next,
            parent: take.tip,
        },
        Allocation::WriteGenesis { take, counter } => Request::WriteGenesis,
        Allocation::Apply { take, counter, genesis } => Request::Transact,
        Allocation::CheckCounter(take) => Request::ReadTip(RefName::Counter),
        Allocation::CheckEntity(take) => Request::ReadTip(RefName::Issue(take.id)),
        Allocation::Done(o) => Request::Nothing,
    }
}

/// The updates of the transaction that `s` asks for: the counter moves on from the
/// commit that was read, and the chain of the issue begins.
pub open spec fn allocation_updates(s: Allocation) -> Seq<RefUpdate> {
    match s {
        Allocation::Apply { take, counter, genesis } => seq![
            RefUpdate { name: RefName::Counter, new: Some(counter), old: take.tip },
            RefUpdate { name: RefName::Issue(take.id), new: Some(genesis), old: None },
        ],
        _ => seq![],
    }
}

impl Allocation {
    /// The first state.
    pub fn start() -> (s: Self)
        ensures
            s == (Allocation::ReadCounter { tries: 0 }),
    {
        Allocation::ReadCounter { tries: 0 }
    }

    /// What is to be done now.
    pub fn request(self) -> (r: Request)
        ensures
            r == allocation_request(self),
    {
        match self {
            Allocation::ReadCounter { .. } => Request::ReadTip(RefName::Counter),
            Allocation::ReadNext { tip, .. } => Request::ReadCounter(tip),
            Allocation::WriteCounter(take) => Request::WriteCounter {
                next: take.next,
                parent: take.tip,
            },
            Allocation::WriteGenesis { .. } => Request::WriteGenesis,
            Allocation::Apply { .. } => Request::Transact,
            Allocation::CheckCounter(_) => Request::ReadTip(RefName::Counter),
            Allocation::CheckEntity(take) => Request::ReadTip(RefName::Issue(take.id)),
            Allocation::Done(_) => Request::Nothing,
        }
    }

    /// The updates of the transaction that is to be applied now.
    pub fn updates(self) -> (r: Vec<RefUpdate>)
        ensures
            r@ == allocation_updates(self),
    {
        let mut out: Vec<RefUpdate> = Vec::new();
        if let Allocation::Apply { take, counter, genesis } = self {
            out.push(RefUpdate { name: RefName::Counter, new: Some(counter), old: take.tip });
            out.push(RefUpdate { name: RefName::Issue(take.id), new: Some(genesis), old: None });
        }
        assert(out@ =~= allocation_updates(self));
        out
    }

    /// The state after the reply. There is no number behind the last one.
    pub fn next(self, reply: Reply) -> (s: Self)
        requires
            reply != Reply::Number(u64::MAX),
        ensures
            s == allocation_after(self, reply),
    {
        match (self, reply) {
            (Allocation::Done(_), _) => self,
            (Allocation::ReadCounter { tries }, Reply::Tip(None)) => Allocation::WriteCounter(
                Take { tries, tip: None, id: 1, next: 2 },
            ),
            (Allocation::ReadCounter { tries }, Reply::Tip(Some(tip))) => Allocation::ReadNext {
                tries,
                tip,
            },
            (Allocation::ReadNext { tries, tip }, Reply::Number(n)) => Allocation::WriteCounter(
                Take { tries, tip: Some(tip), id: n, next: n + 1 },
            ),
            (Allocation::WriteCounter(take), Reply::Object(counter)) => Allocation::WriteGenesis {
                take,
                counter,
            },
            (Allocation::WriteGenesis { take, counter }, Reply::Object(genesis)) =>
                Allocation::Apply { take, counter, genesis },
            (Allocation::Apply { take, .. }, Reply::Applied) => Allocation::Done(
                Outcome::Number(take.id),
            ),
            (Allocation::Apply { take, .. }, Reply::Rejected) => Allocation::CheckCounter(take),
            (Allocation::CheckCounter(take), Reply::Tip(now)) => if now != take.tip {
                if take.tries < MAX_ALLOC_RETRIES - 1 {
                    Allocation::ReadCounter { tries: take.tries + 1 }
                } else {
                    Allocation::Done(Outcome::Exhausted)
                }
            } else {
                Allocation::CheckEntity(take)
            },
            (Allocation::CheckEntity(take), Reply::Tip(Some(_))) => Allocation::Done(
                Outcome::RefExists(RefName::Issue(take.id)),
            ),
            (Allocation::CheckEntity(_), Reply::Tip(None)) => Allocation::Done(Outcome::Rejected),
            _ => Allocation::Done(Outcome::Failed),
        }
    }
}

/// Does the state hold what was read and written? `number` is what the counter
/// commits hold.
pub open spec fn allocation_ok(s: Allocation, number: spec_fn(Oid) -> int) -> bool {
    match s {
        Allocation::WriteCounter(take) => take_ok(take, number),
        Allocation::WriteGenesis { take, counter } => take_ok(take, number) && number(counter)
            == take.next,
        Allocation::Apply { take, counter, genesis } => take_ok(take, number) && number(counter)
            == take.next,
        Allocation::CheckCounter(take) => take_ok(take, number),
        Allocation::CheckEntity(take) => take_ok(take, number),
        _ => true,
    }
}

/// Is the reply true to the counter commits: does a read number stand in the commit,
/// and does a written counter commit hold the number that was asked for?
pub open spec fn true_reply(request: Request, reply: Reply, number: spec_fn(Oid) -> int) -> bool {
    match (request, reply) {
        (Request::ReadCounter(tip), Reply::Number(n)) => n == number(tip) && n < u64::MAX,
        (Request::WriteCounter { next, parent }, Reply::Object(o)) => number(o) == next,
        _ => true,
    }
}

/// Every state that true replies lead to holds what was read and written.
pub proof fn law_allocation_ok(s: Allocation, reply: Reply, number: spec_fn(Oid) -> int)
    requires
        allocation_ok(s, number),
        true_reply(allocation_request(s), reply, number),
    ensures
        allocation_ok(allocation_after(s, reply), number),
{
}

/// A transaction that Git accepts takes the number that the counter held, makes the
/// counter hold the next one, and creates the chain of a new issue.
pub proof fn law_allocation_applied(
    s: Allocation,
    number: spec_fn(Oid) -> int,
    before: Map<RefName, Oid>,
    after: Map<RefName, Oid>,
)
    requires
        s is Apply,
        allocation_ok(s, number),
        refs::after_updates(before, allocation_updates(s)) == Some(after),
    ensures
        ({
            let id = s->Apply_take.id;
            &&& allocation_after(s, Reply::Applied) == Allocation::Done(Outcome::Number(id))
            &&& counter_value(refs::held(before, RefName::Counter), number) == id
            &&& counter_value(refs::held(after, RefName::Counter), number) == id + 1
            &&& refs::held(before, RefName::Issue(id)) is None
            &&& refs::held(after, RefName::Issue(id)) is Some
        }),
{
    reveal_with_fuel(refs::after_updates, 3);
    let ups = allocation_updates(s);
    assert(ups.drop_last() =~= seq![ups[0]]);
    assert(seq![ups[0]].drop_last() =~= seq![]);
    assert(refs::after_updates(before, seq![]) == Some(before));
}

/// Of two allocations, the second of which finds the counter no lower than the first
/// one left it, the second gets a higher number.
pub proof fn law_allocated_numbers_rise(
    first: Allocation,
    second: Allocation,
    number: spec_fn(Oid) -> int,
    before1: Map<RefName, Oid>,
    after1: Map<RefName, Oid>,
    before2: Map<RefName, Oid>,
    after2: Map<RefName, Oid>,
)
    requires
        first is Apply,
        second is Apply,
        allocation_ok(first, number),
        allocation_ok(second, number),
        refs::after_updates(before1, allocation_updates(first)) == Some(after1),
        refs::after_updates(before2, allocation_updates(second)) == Some(after2),
        counter_value(refs::held(after1, RefName::Counter), number) <= counter_value(
            refs::held(before2, RefName::Counter),
            number,
        ),
    ensures
        first->Apply_take.id < second->Apply_take.id,
{
    law_allocation_applied(first, number, before1, after1);
    law_allocation_applied(second, number, before2, after2);
}

/// The number of an allocation comes only from a transaction that was applied.
pub proof fn law_allocation_needs_transaction(s: Allocation, reply: Reply, id: u64)
    requires
        !(s is Done),
        allocation_after(s, reply) == Allocation::Done(Outcome::Number(id)),
    ensures
        s is Apply,
        reply == Reply::Applied,
        s->Apply_take.id == id,
{
}

/// Whether the issue exists is asked only where the counter has not moved.
pub proof fn law_allocation_asks_after_counter(s: Allocation, reply: Reply, take: Take)
    requires
        !(s is Done),
        allocation_after(s, reply) == Allocation::CheckEntity(take),
    ensures
        s == Allocation::CheckCounter(take),
        reply == Reply::Tip(take.tip),
{
}

/// That an issue exists is told only where its chain was asked for and is there.
pub proof fn law_allocation_collision(s: Allocation, reply: Reply, name: RefName)
    requires
        !(s is Done),
        allocation_after(s, reply) == Allocation::Done(Outcome::RefExists(name)),
    ensures
        s is CheckEntity,
        name == RefName::Issue(s->CheckEntity_0.id),
        allocation_request(s) == Request::ReadTip(name),
        reply matches Reply::Tip(Some(_)),
{
}

/// How many steps are left at most.
pub open spec fn allocation_steps(s: Allocation) -> int {
    match s {
        Allocation::ReadCounter { tries } => 8 * (MAX_ALLOC_RETRIES - tries) - 1,
        Allocation::ReadNext { tries, tip } => 8 * (MAX_ALLOC_RETRIES - tries) - 2,
        Allocation::WriteCounter(take) => 8 * (MAX_ALLOC_RETRIES - take.tries) - 3,
        Allocation::WriteGenesis { take, counter } => 8 * (MAX_ALLOC_RETRIES - take.tries) - 4,
        Allocation::Apply { take, counter, genesis } => 8 * (MAX_ALLOC_RETRIES - take.tries) - 5,
        Allocation::CheckCounter(take) => 8 * (MAX_ALLOC_RETRIES - take.tries) - 6,
        Allocation::CheckEntity(take) => 8 * (MAX_ALLOC_RETRIES - take.tries) - 7,
        Allocation::Done(o) => 0,
    }
}

/// How many tries have been begun.
pub open spec fn allocation_tries(s: Allocation) -> int {
    match s {
        Allocation::ReadCounter { tries } => tries as int,
        Allocation::ReadNext { tries, tip } => tries as int,
        Allocation::WriteCounter(take) => take.tries as int,
        Allocation::WriteGenesis { take, counter } => take.tries as int,
        Allocation::Apply { take, counter, genesis } => take.tries as int,
        Allocation::CheckCounter(take) => take.tries as int,
        Allocation::CheckEntity(take) => take.tries as int,
        Allocation::Done(o) => 0,
    }
}

/// An allocation ends, whatever the replies: after at most three tries.
pub proof fn law_allocation_ends(s: Allocation, reply: Reply)
    requires
        !(s is Done),
        allocation_tries(s) < MAX_ALLOC_RETRIES,
    ensures
        allocation_tries(allocation_after(s, reply)) < MAX_ALLOC_RETRIES,
        0 <= allocation_steps(allocation_after(s, reply)) < allocation_steps(s),
{
}

// ---------------------------------------------------------------------------
// Appending

/// The state of the appending of an event to the chain `name`.
#[derive(Debug, Clone, Copy, PartialEq, Eq, Structural)]
pub enum Append {
    ReadTip { tries: u32 },
    Write { tries: u32, tip: Option<Oid> },
    Apply { tries: u32, tip: Option<Oid>, commit: Oid },
    CheckTip { tries: u32, tip: Option<Oid> },
    Done(Outcome),
}

/// The state after the reply to what `s` asks for. After a concurrent change the
/// chain is read anew, also where no try is left.
pub open spec fn append_after(s: Append, reply: Reply) -> Append {
    match (s, reply) {
        (Append::Done(o), _) => s,
        (Append::ReadTip { tries }, Reply::Tip(tip)) => if tries < MAX_APPEND_RETRIES {
            Append::Write { tries, tip }
        } else {
            Append::Done(Outcome::Exhausted)
        },
        (Append::Write { tries, tip }, Reply::Object(commit)) => Append::Apply {
            tries,
            tip,
            commit,
        },
        (Append::Apply { tries, tip, commit }, Reply::Applied) => Append::Done(
            Outcome::Object(commit),
        ),
        (Append::Apply { tries, tip, commit }, Reply::Rejected) => Append::CheckTip { tries, tip },
        (Append::CheckTip { tries, tip }, Reply::Tip(now)) => if now != tip && tries
            < MAX_APPEND_RETRIES {
            Append::ReadTip { tries: (tries + 1) as u32 }
        } else {
            Append::Done(Outcome::Rejected)
        },
        _ => Append::Done(Outcome::Failed),
    }
}

/// What `s` asks for, on the chain `name`.
pub open spec fn append_request(s: Append, name: RefName) -> Request {
    match s {
        Append::ReadTip { tries } => Request::ReadTip(name),
        Append::Write { tries, tip } => Request::WriteEvent { parent: tip },
        Append::Apply { tries, tip, commit } => Request::Transact,
        Append::CheckTip { tries, tip } => Request::ReadTip(name),
        Append::Done(o) => Request::Nothing,
    }
}

/// The updates of the transaction that `s` asks for: the chain moves on from the
/// commit that was read.
pub open spec fn append_updates(s: Append, name: RefName) -> Seq<RefUpdate> {
    match s {
        Append::Apply { tries, tip, commit } => seq![
            RefUpdate { name, new: Some(commit), old: tip },
        ],
        _ => seq![],
    }
}

impl Append {
    /// The first state.
    pub fn start() -> (s: Self)
        ensures
            s == (Append::ReadTip { tries: 0 }),
    {
        Append::ReadTip { tries: 0 }
    }

    /// What is to be done now, on the chain `name`.
    pub fn request(self, name: RefName) -> (r: Request)
        ensures
            r == append_request(self, name),
    {
        match self {
            Append::ReadTip { .. } => Request::ReadTip(name),
            Append::Write { tip, .. } => Request::WriteEvent { parent: tip },
            Append::Apply { .. } => Request::Transact,
            Append::CheckTip { .. } => Request::ReadTip(name),
            Append::Done(_) => Request::Nothing,
        }
    }

    /// The updates of the transaction that is to be applied now.
    pub fn updates(self, name: RefName) -> (r: Vec<RefUpdate>)
        ensures
            r@ == append_updates(self, name),
    {
        let mut out: Vec<RefUpdate> = Vec::new();
        if let Append::Apply { tip, commit, .. } = self {
            out.push(RefUpdate { name, new: Some(commit), old: tip });
        }
        assert(out@ =~= append_updates(self, name));
        out
    }

    /// The state after the reply.
    pub fn next(self, reply: Reply) -> (s: Self)
        ensures
            s == append_after(self, reply),
    {
        match (self, reply) {
            (Append::Done(_), _) => self,
            (Append::ReadTip { tries }, Reply::Tip(tip)) => if tries < MAX_APPEND_RETRIES {
                Append::Write { tries, tip }
            } else {
                Append::Done(Outcome::Exhausted)
            },
            (Append::Write { tries, tip }, Reply::Object(commit)) => Append::Apply {
                tries,
                tip,
                commit,
            },
            (Append::Apply { commit, .. }, Reply::Applied) => Append::Done(
                Outcome::Object(commit),
            ),
            (Append::Apply { tries, tip, .. }, Reply::Rejected) => Append::CheckTip { tries, tip },
            (Append::CheckTip { tries, tip }, Reply::Tip(now)) => if now != tip && tries
                < MAX_APPEND_RETRIES {
                Append::ReadTip { tries: tries + 1 }
            } else {
                Append::Done(Outcome::Rejected)
            },
            _ => Append::Done(Outcome::Failed),
        }
    }
}

/// An accepted append puts exactly one commit on top of the commit that was its
/// parent, and changes no other ref.
pub proof fn law_append_applied(
    s: Append,
    name: RefName,
    before: Map<RefName, Oid>,
    after: Map<RefName, Oid>,
)
    requires
        s is Apply,
        refs::after_updates(before, append_updates(s, name)) == Some(after),
    ensures
        append_after(s, Reply::Applied) == Append::Done(Outcome::Object(s->Apply_commit)),
        refs::held(before, name) == s->Apply_tip,
        refs::held(after, name) == Some(s->Apply_commit),
        forall|other: RefName|
            other != name ==> refs::held(after, other) == #[trigger] refs::held(before, other),
{
    reveal_with_fuel(refs::after_updates, 2);
    let ups = append_updates(s, name);
    assert(ups.drop_last() =~= seq![]);
    assert(refs::after_updates(before, seq![]) == Some(before));
}

/// In every try the commit is asked for with the tip that was read as its only
/// parent, and the transaction moves the chain from exactly this tip to the commit.
pub proof fn law_append_parent_is_tip(s: Append, commit: Oid, name: RefName)
    requires
        s is Write,
    ensures
        append_request(s, name) == (Request::WriteEvent { parent: s->Write_tip }),
        append_updates(append_after(s, Reply::Object(commit)), name) == seq![
            RefUpdate { name, new: Some(commit), old: s->Write_tip },
        ],
{
}

/// How many steps are left at most.
pub open spec fn append_steps(s: Append) -> int {
    match s {
        Append::ReadTip { tries } => 4 * (MAX_APPEND_RETRIES + 1 - tries),
        Append::Write { tries, tip } => 4 * (MAX_APPEND_RETRIES + 1 - tries) - 1,
        Append::Apply { tries, tip, commit } => 4 * (MAX_APPEND_RETRIES + 1 - tries) - 2,
        Append::CheckTip { tries, tip } => 4 * (MAX_APPEND_RETRIES + 1 - tries) - 3,
        Append::Done(o) => 0,
    }
}

/// An append ends, whatever the replies.
pub proof fn law_append_ends(s: Append, reply: Reply)
    requires
        !(s is Done),
        append_steps(s) > 0,
    ensures
        0 <= append_steps(append_after(s, reply)) < append_steps(s),
        !(append_after(s, reply) is Done) ==> append_steps(append_after(s, reply)) > 0,
{
}

// ---------------------------------------------------------------------------
// Creation of a pull request

/// The state of the creation of a pull request.
#[derive(Debug, Clone, Copy, PartialEq, Eq, Structural)]
pub enum Creation {
    ReadCounter { tries: u32 },
    ReadNext { tries: u32, tip: Oid },
    WriteCounter(Take),
    WriteGenesis { take: Take, counter: Oid },
    WriteCreated { take: Take, counter: Oid, genesis: Oid },
    WriteCheck { take: Take, counter: Oid, created: Oid },
    Apply { take: Take, counter: Oid, created: Oid, check: Oid },
    CheckCounter(Take),
    CheckHead(Take),
    CheckMeta(Take),
    CheckSource(Take),
    CheckBase(Take),
    Done(Outcome),
}

/// The state after a try that met a concurrent change.
pub open spec fn creation_retry(tries: u32) -> Creation {
    if tries + 1 < MAX_ALLOC_RETRIES {
        Creation::ReadCounter { tries: (tries + 1) as u32 }
    } else {
        Creation::Done(Outcome::Exhausted)
    }
}

/// The end of a creation that found one of the refs in place.
pub open spec fn creation_collision(take: Take) -> Creation {
    Creation::Done(Outcome::RefExists(RefName::PrHead(take.id)))
}

/// The state after the reply to what `s` asks for.
pub open spec fn creation_after(s: Creation, reply: Reply) -> Creation {
    match (s, reply) {
        (Creation::Done(o), _) => s,
        (Creation::ReadCounter { tries }, Reply::Tip(None)) => Creation::WriteCounter(
            Take { tries, tip: None, id: 1, next: 2 },
        ),
        (Creation::ReadCounter { tries }, Reply::Tip(Some(tip))) => Creation::ReadNext {
            tries,
            tip,
        },
        (Creation::ReadNext { tries, tip }, Reply::Number(n)) => Creation::WriteCounter(
            Take { tries, tip: Some(tip), id: n, next: (n + 1) as u64 },
        ),
        (Creation::WriteCounter(take), Reply::Object(counter)) => Creation::WriteGenesis {
            take,
            counter,
        },
        (Creation::WriteGenesis { take, counter }, Reply::Object(genesis)) =>
            Creation::WriteCreated { take, counter, genesis },
        (Creation::WriteCreated { take, counter, genesis }, Reply::Object(created)) =>
            Creation::WriteCheck { take, counter, created },
        (Creation::WriteCheck { take, counter, created }, Reply::Object(check)) => Creation::Apply {
            take,
            counter,
            created,
            check,
        },
        (Creation::Apply { take, counter, created, check }, Reply::Applied) => Creation::Done(
            Outcome::Number(take.id),
        ),
        (Creation::Apply { take, counter, created, check }, Reply::Rejected) =>
            Creation::CheckCounter(take),
        (Creation::CheckCounter(take), Reply::Tip(now)) => if now != take.tip {
            creation_retry(take.tries)
        } else {
            Creation::CheckHead(take)
        },
        (Creation::CheckHead(take), Reply::Tip(now)) => if now is Some {
            creation_collision(take)
        } else {
            Creation::CheckMeta(take)
        },
        (Creation::CheckMeta(take), Reply::Tip(now)) => if now is Some {
            creation_collision(take)
        } else {
            Creation::CheckSource(take)
        },
        (Creation::CheckSource(take), Reply::Tip(now)) => if now is Some {
            creation_collision(take)
        } else {
            Creation::CheckBase(take)
        },
        (Creation::CheckBase(take), Reply::Tip(now)) => if now is Some {
            creation_collision(take)
        } else {
            Creation::Done(Outcome::Rejected)
        },
        _ => Creation::Done(Outcome::Failed),
    }
}

/// What `s` asks for.
pub open spec fn creation_request(s: Creation) -> Request {
    match s {
        Creation::ReadCounter { tries } => Request::ReadTip(RefName::Counter),
        Creation::ReadNext { tries, tip } => Request::ReadCounter(tip),
        Creation::WriteCounter(take) => Request::WriteCounter {
            next: take.next,
            parent: take.tip,
        },
        Creation::WriteGenesis { take, counter } => Request::WriteGenesis,
        Creation::WriteCreated { take, counter, genesis } => Request::WriteCreated {
            id: take.id,
            parent: genesis,
        },
        Creation::WriteCheck { take, counter, created } => Request::WriteCheck {
            id: take.id,
            parent: created,
        },
        Creation::Apply { take, counter, created, check } => Request::Transact,
        Creation::CheckCounter(take) => Request::ReadTip(RefName::Counter),
        Creation::CheckHead(take) => Request::ReadTip(RefName::PrHead(take.id)),
        Creation::CheckMeta(take) => Request::ReadTip(RefName::PrMeta(take.id)),
        Creation::CheckSource(take) => Request::ReadTip(RefName::PrSource(take.id)),
        Creation::CheckBase(take) => Request::ReadTip(RefName::PrBase(take.id)),
        Creation::Done(o) => Request::Nothing,
    }
}

/// The updates of the transaction that `s` asks for: the counter moves on, the chain
/// begins with the pending check on top of the creation, and the snapshot refs are
/// made.
pub open spec fn creation_updates(s: Creation, source: Oid, base: Oid) -> Seq<RefUpdate> {
    match s {
        Creation::Apply { take, counter, created, check } => seq![
            RefUpdate { name: RefName::Counter, new: Some(counter), old: take.tip },
            RefUpdate { name: RefName::PrHead(take.id), new: Some(check), old: None },
            RefUpdate { name: RefName::PrMeta(take.id), new: Some(created), old: None },
            RefUpdate { name: RefName::PrSource(take.id), new: Some(source), old: None },
            RefUpdate { name: RefName::PrBase(take.id), new: Some(base), old: None },
        ],
        _ => seq![],
    }
}

impl Creation {
    /// The first state.
    pub fn start() -> (s: Self)
        ensures
            s == (Creation::ReadCounter { tries: 0 }),
    {
        Creation::ReadCounter { tries: 0 }
    }

    /// What is to be done now.
    pub fn request(self) -> (r: Request)
        ensures
            r == creation_request(self),
    {
        match self {
            Creation::ReadCounter { .. } => Request::ReadTip(RefName::Counter),
            Creation::ReadNext { tip, .. } => Request::ReadCounter(tip),
            Creation::WriteCounter(take) => Request::WriteCounter {
                next: take.next,
                parent: take.tip,
            },
            Creation::WriteGenesis { .. } => Request::WriteGenesis,
            Creation::WriteCreated { take, genesis, .. } => Request::WriteCreated {
                id: take.id,
                parent: genesis,
            },
            Creation::WriteCheck { take, created, .. } => Request::WriteCheck {
                id: take.id,
                parent: created,
            },
            Creation::Apply { .. } => Request::Transact,
            Creation::CheckCounter(_) => Request::ReadTip(RefName::Counter),
            Creation::CheckHead(take) => Request::ReadTip(RefName::PrHead(take.id)),
            Creation::CheckMeta(take) => Request::ReadTip(RefName::PrMeta(take.id)),
            Creation::CheckSource(take) => Request::ReadTip(RefName::PrSource(take.id)),
            Creation::CheckBase(take) => Request::ReadTip(RefName::PrBase(take.id)),
            Creation::Done(_) => Request::Nothing,
        }
    }

    /// The updates of the transaction that is to be applied now, for the heads that
    /// the pull request offers and was made against.
    pub fn updates(self, source: Oid, base: Oid) -> (r: Vec<RefUpdate>)
        ensures
            r@ == creation_updates(self, source, base),
    {
        let mut out: Vec<RefUpdate> = Vec::new();
        if let Creation::Apply { take, counter, created, check } = self {
            out.push(RefUpdate { name: RefName::Counter, new: Some(counter), old: take.tip });
            out.push(RefUpdate { name: RefName::PrHead(take.id), new: Some(check), old: None });
            out.push(RefUpdate { name: RefName::PrMeta(take.id), new: Some(created), old: None });
            out.push(RefUpdate { name: RefName::PrSource(take.id), new: Some(source), old: None });
            out.push(RefUpdate { name: RefName::PrBase(take.id), new: Some(base), old: None });
        }
        assert(out@ =~= creation_updates(self, source, base));
        out
    }

    /// The state after the reply. There is no number behind the last one.
    pub fn next(self, reply: Reply) -> (s: Self)
        requires
            reply != Reply::Number(u64::MAX),
        ensures
            s == creation_after(self, reply),
    {
        match (self, reply) {
            (Creation::Done(_), _) => self,
            (Creation::ReadCounter { tries }, Reply::Tip(None)) => Creation::WriteCounter(
                Take { tries, tip: None, id: 1, next: 2 },
            ),
            (Creation::ReadCounter { tries }, Reply::Tip(Some(tip))) => Creation::ReadNext {
                tries,
                tip,
            },
            (Creation::ReadNext { tries, tip }, Reply::Number(n)) => Creation::WriteCounter(
                Take { tries, tip: Some(tip), id: n, next: n + 1 },
            ),
            (Creation::WriteCounter(take), Reply::Object(counter)) => Creation::WriteGenesis {
                take,
                counter,
            },
            (Creation::WriteGenesis { take, counter }, Reply::Object(genesis)) =>
                Creation::WriteCreated { take, counter, genesis },
            (Creation::WriteCreated { take, counter, .. }, Reply::Object(created)) =>
                Creation::WriteCheck { take, counter, created },
            (Creation::WriteCheck { take, counter, created }, Reply::Object(check)) =>
                Creation::Apply { take, counter, created, check },
            (Creation::Apply { take, .. }, Reply::Applied) => Creation::Done(
                Outcome::Number(take.id),
            ),
            (Creation::Apply { take, .. }, Reply::Rejected) => Creation::CheckCounter(take),
            (Creation::CheckCounter(take), Reply::Tip(now)) => if now != take.tip {
                if take.tries < MAX_ALLOC_RETRIES - 1 {
                    Creation::ReadCounter { tries: take.tries + 1 }
                } else {
                    Creation::Done(Outcome::Exhausted)
                }
            } else {
                Creation::CheckHead(take)
            },
            (Creation::CheckHead(take), Reply::Tip(now)) => if now.is_some() {
                Creation::Done(Outcome::RefExists(RefName::PrHead(take.id)))
            } else {
                Creation::CheckMeta(take)
            },
            (Creation::CheckMeta(take), Reply::Tip(now)) => if now.is_some() {
                Creation::Done(Outcome::RefExists(RefName::PrHead(take.id)))
            } else {
                Creation::CheckSource(take)
            },
            (Creation::CheckSource(take), Reply::Tip(now)) => if now.is_some() {
                Creation::Done(Outcome::RefExists(RefName::PrHead(take.id)))
            } else {
                Creation::CheckBase(take)
            },
            (Creation::CheckBase(take), Reply::Tip(now)) => if now.is_some() {
                Creation::Done(Outcome::RefExists(RefName::PrHead(take.id)))
            } else {
                Creation::Done(Outcome::Rejected)
            },
            _ => Creation::Done(Outcome::Failed),
        }
    }
}

/// Does the state hold what was read and written?
pub open spec fn creation_ok(s: Creation, number: spec_fn(Oid) -> int) -> bool {
    match s {
        Creation::WriteCounter(take) => take_ok(take, number),
        Creation::WriteGenesis { take, counter } => take_ok(take, number) && number(counter)
            == take.next,
        Creation::WriteCreated { take, counter, genesis } => take_ok(take, number) && number(counter)
            == take.next,
        Creation::WriteCheck { take, counter, created } => take_ok(take, number) && number(counter)
            == take.next,
        Creation::Apply { take, counter, created, check } => take_ok(take, number) && number(counter)
            == take.next,
        _ => true,
    }
}

/// Every state that true replies lead to holds what was read and written.
pub proof fn law_creation_ok(s: Creation, reply: Reply, number: spec_fn(Oid) -> int)
    requires
        creation_ok(s, number),
        true_reply(creation_request(s), reply, number),
    ensures
        creation_ok(creation_after(s, reply), number),
{
}

/// A transaction that Git accepts takes the number that the counter held, makes the
/// counter hold the next one, and creates all four refs of the pull request at once:
/// the chain with the pending check on top, the creation, and the two snapshots.
pub proof fn law_creation_applied(
    s: Creation,
    source: Oid,
    base: Oid,
    number: spec_fn(Oid) -> int,
    before: Map<RefName, Oid>,
    after: Map<RefName, Oid>,
)
    requires
        s is Apply,
        creation_ok(s, number),
        refs::after_updates(before, creation_updates(s, source, base)) == Some(after),
    ensures
        ({
            let id = s->Apply_take.id;
            &&& creation_after(s, Reply::Applied) == Creation::Done(Outcome::Number(id))
            &&& counter_value(refs::held(before, RefName::Counter), number) == id
            &&& counter_value(refs::held(after, RefName::Counter), number) == id + 1
            &&& refs::held(before, RefName::PrHead(id)) is None
            &&& refs::held(before, RefName::PrMeta(id)) is None
            &&& refs::held(before, RefName::PrSource(id)) is None
            &&& refs::held(before, RefName::PrBase(id)) is None
            &&& refs::held(after, RefName::PrHead(id)) == Some(s->Apply_check)
            &&& refs::held(after, RefName::PrMeta(id)) == Some(s->Apply_created)
            &&& refs::held(after, RefName::PrSource(id)) == Some(source)
            &&& refs::held(after, RefName::PrBase(id)) == Some(base)
        }),
{
    let ups = creation_updates(s, source, base);
    let u0: Seq<RefUpdate> = seq![];
    let u1 = seq![ups[0]];
    let u2 = seq![ups[0], ups[1]];
    let u3 = seq![ups[0], ups[1], ups[2]];
    let u4 = seq![ups[0], ups[1], ups[2], ups[3]];
    assert(ups.drop_last() =~= u4);
    assert(u4.drop_last() =~= u3);
    assert(u3.drop_last() =~= u2);
    assert(u2.drop_last() =~= u1);
    assert(u1.drop_last() =~= u0);
    assert(refs::after_updates(before, u0) == Some(before));
    assert(refs::after_updates(before, u1) is Some);
    assert(refs::after_updates(before, u2) is Some);
    assert(refs::after_updates(before, u3) is Some);
    assert(refs::after_updates(before, u4) is Some);
}

/// Issues and pull requests share their numbers: a pull request that finds the counter no
/// lower than an issue left it gets a higher number, and the other way round; and so does
/// a second pull request.
pub proof fn law_numbers_are_shared(
    issue: Allocation,
    pr: Creation,
    later: Creation,
    number: spec_fn(Oid) -> int,
    source: Oid,
    base: Oid,
    issue_before: Map<RefName, Oid>,
    issue_after: Map<RefName, Oid>,
    pr_before: Map<RefName, Oid>,
    pr_after: Map<RefName, Oid>,
    later_before: Map<RefName, Oid>,
    later_after: Map<RefName, Oid>,
)
    requires
        issue is Apply,
        pr is Apply,
        later is Apply,
        allocation_ok(issue, number),
        creation_ok(pr, number),
        creation_ok(later, number),
        refs::after_updates(issue_before, allocation_updates(issue)) == Some(issue_after),
        refs::after_updates(pr_before, creation_updates(pr, source, base)) == Some(pr_after),
        refs::after_updates(later_before, creation_updates(later, source, base)) == Some(
            later_after,
        ),
    ensures
        counter_value(refs::held(issue_after, RefName::Counter), number) <= counter_value(
            refs::held(pr_before, RefName::Counter),
            number,
        ) ==> issue->Apply_take.id < pr->Apply_take.id,
        counter_value(refs::held(pr_after, RefName::Counter), number) <= counter_value(
            refs::held(issue_before, RefName::Counter),
            number,
        ) ==> pr->Apply_take.id < issue->Apply_take.id,
        counter_value(refs::held(pr_after, RefName::Counter), number) <= counter_value(
            refs::held(later_before, RefName::Counter),
            number,
        ) ==> pr->Apply_take.id < later->Apply_take.id,
{
    law_allocation_applied(issue, number, issue_before, issue_after);
    law_creation_applied(pr, source, base, number, pr_before, pr_after);
    law_creation_applied(later, source, base, number, later_before, later_after);
}

/// Whether the pull request exists is asked only where the counter has not moved.
pub proof fn law_creation_asks_after_counter(s: Creation, reply: Reply, take: Take)
    requires
        !(s is Done),
        creation_after(s, reply) == Creation::CheckHead(take),
    ensures
        s == Creation::CheckCounter(take),
        reply == Reply::Tip(take.tip),
{
}

/// That a pull request exists is told only where one of its four refs was asked for
/// and is there; the ref that is told is that of its chain.
pub proof fn law_creation_collision(s: Creation, reply: Reply, name: RefName)
    requires
        !(s is Done),
        creation_after(s, reply) == Creation::Done(Outcome::RefExists(name)),
    ensures
        name is PrHead,
        match s {
            Creation::CheckHead(take) => take.id == name->PrHead_0 && creation_request(s)
                == Request::ReadTip(RefName::PrHead(take.id)),
            Creation::CheckMeta(take) => take.id == name->PrHead_0 && creation_request(s)
                == Request::ReadTip(RefName::PrMeta(take.id)),
            Creation::CheckSource(take) => take.id == name->PrHead_0 && creation_request(s)
                == Request::ReadTip(RefName::PrSource(take.id)),
            Creation::CheckBase(take) => take.id == name->PrHead_0 && creation_request(s)
                == Request::ReadTip(RefName::PrBase(take.id)),
            _ => false,
        },
        reply matches Reply::Tip(Some(_)),
{
}

/// How many steps are left at most.
pub open spec fn creation_steps(s: Creation) -> int {
    match s {
        Creation::ReadCounter { tries } => 16 * (MAX_ALLOC_RETRIES - tries) - 1,
        Creation::ReadNext { tries, tip } => 16 * (MAX_ALLOC_RETRIES - tries) - 2,
        Creation::WriteCounter(t) => 16 * (MAX_ALLOC_RETRIES - t.tries) - 3,
        Creation::WriteGenesis { take, counter } => 16 * (MAX_ALLOC_RETRIES - take.tries) - 4,
        Creation::WriteCreated { take, counter, genesis } => 16 * (MAX_ALLOC_RETRIES - take.tries)
            - 5,
        Creation::WriteCheck { take, counter, created } => 16 * (MAX_ALLOC_RETRIES - take.tries)
            - 6,
        Creation::Apply { take, counter, created, check } => 16 * (MAX_ALLOC_RETRIES - take.tries)
            - 7,
        Creation::CheckCounter(t) => 16 * (MAX_ALLOC_RETRIES - t.tries) - 8,
        Creation::CheckHead(t) => 16 * (MAX_ALLOC_RETRIES - t.tries) - 9,
        Creation::CheckMeta(t) => 16 * (MAX_ALLOC_RETRIES - t.tries) - 10,
        Creation::CheckSource(t) => 16 * (MAX_ALLOC_RETRIES - t.tries) - 11,
        Creation::CheckBase(t) => 16 * (MAX_ALLOC_RETRIES - t.tries) - 12,
        Creation::Done(o) => 0,
    }
}

/// A creation ends, whatever the replies: after at most three tries.
pub proof fn law_creation_ends(s: Creation, reply: Reply)
    requires
        !(s is Done),
        creation_steps(s) > 0,
    ensures
        0 <= creation_steps(creation_after(s, reply)) < creation_steps(s),
        !(creation_after(s, reply) is Done) ==> creation_steps(creation_after(s, reply)) > 0,
{
}

// ---------------------------------------------------------------------------
// The pending result of a merge

/// What became of the deletion of a pending result.
#[derive(Debug, Clone, Copy, PartialEq, Eq, Structural)]
pub enum Deletion {
    /// It was deleted.
    Deleted,
    /// It was gone already.
    Gone,
    /// It is still there.
    Left,
}

/// The update that creates the pending result of the pull request `id`.
pub open spec fn pending_update(id: u64, result: Oid) -> RefUpdate {
    RefUpdate { name: RefName::PrResult(id), new: Some(result), old: None }
}

/// The update that deletes the pending result of the pull request `id`.
pub open spec fn unpending_update(id: u64, result: Oid) -> RefUpdate {
    RefUpdate { name: RefName::PrResult(id), new: None, old: Some(result) }
}

/// The update that creates the pending result of the pull request `id`, which keeps
/// the merge commit alive until the merge is complete.
pub fn create_pending_result(id: u64, result: Oid) -> (r: RefUpdate)
    ensures
        r == pending_update(id, result),
{
    RefUpdate { name: RefName::PrResult(id), new: Some(result), old: None }
}

/// The update that deletes the pending result of the pull request `id`.
pub fn delete_pending_result(id: u64, result: Oid) -> (r: RefUpdate)
    ensures
        r == unpending_update(id, result),
{
    RefUpdate { name: RefName::PrResult(id), new: None, old: Some(result) }
}

/// What became of a deletion: whether it was applied, and else what the ref holds now.
pub fn deletion_outcome(applied: bool, now: Option<Oid>) -> (r: Deletion)
    ensures
        r == (if applied {
            Deletion::Deleted
        } else if now is None {
            Deletion::Gone
        } else {
            Deletion::Left
        }),
{
    if applied {
        Deletion::Deleted
    } else if now.is_none() {
        Deletion::Gone
    } else {
        Deletion::Left
    }
}

/// A deletion undoes a creation.
pub proof fn law_deletion_undoes_creation(id: u64, result: Oid, refs0: Map<RefName, Oid>)
    requires
        refs::held(refs0, RefName::PrResult(id)) is None,
    ensures
        ({
            let made = refs::after_updates(refs0, seq![pending_update(id, result)]);
            made is Some && refs::after_updates(
                made.unwrap(),
                seq![unpending_update(id, result)],
            ) == Some(refs0)
        }),
{
    reveal_with_fuel(refs::after_updates, 2);
    let a = seq![pending_update(id, result)];
    let b = seq![unpending_update(id, result)];
    assert(a.drop_last() =~= seq![]);
    assert(b.drop_last() =~= seq![]);
    let made = refs0.insert(RefName::PrResult(id), result);
    assert(refs::after_updates(refs0, a) == Some(made));
    assert(made.remove(RefName::PrResult(id)) =~= refs0);
}

// ---------------------------------------------------------------------------
// Completion of a merge

/// A conditional update of any ref, by its path: it goes from `old` to `new`.
pub struct PathUpdate {
    pub path: Seq<char>,
    pub new: Option<Oid>,
    pub old: Option<Oid>,
}

/// The updates that complete a merge, in one transaction: the pending result goes,
/// the base branch moves from the head that the pull request was made against to the
/// result, and the chain moves from the tip that was judged to the merge event.
pub open spec fn completion_updates(
    id: u64,
    base_ref: Seq<char>,
    base_expected: Oid,
    result: Oid,
    head_expected: Oid,
    merge_event: Oid,
) -> Seq<PathUpdate> {
    seq![
        PathUpdate {
            path: refs::pr_path(id as int, "/result"@),
            new: None,
            old: Some(result),
        },
        PathUpdate {
            path: "refs/heads/"@ + base_ref,
            new: Some(result),
            old: Some(base_expected),
        },
        PathUpdate {
            path: refs::pr_path(id as int, "/head"@),
            new: Some(merge_event),
            old: Some(head_expected),
        },
    ]
}

/// The commands of the updates.
pub open spec fn command_texts(ups: Seq<PathUpdate>) -> Seq<Seq<char>> {
    ups.map_values(|u: PathUpdate| refs::update_text(u.path, u.new, u.old))
}

/// What the ref at `path` holds.
pub open spec fn held_at(refs: Map<Seq<char>, Oid>, path: Seq<char>) -> Option<Oid> {
    if refs.contains_key(path) {
        Some(refs[path])
    } else {
        None
    }
}

/// The refs after a transaction of the updates, where it is accepted: where every ref
/// holds what its update names as old.
pub open spec fn after_path_updates(refs: Map<Seq<char>, Oid>, ups: Seq<PathUpdate>) -> Option<
    Map<Seq<char>, Oid>,
>
    decreases ups.len(),
{
    if ups.len() == 0 {
        Some(refs)
    } else {
        let u = ups.last();
        match after_path_updates(refs, ups.drop_last()) {
            Some(r) => if held_at(refs, u.path) != u.old {
                None
            } else {
                match u.new {
                    Some(x) => Some(r.insert(u.path, x)),
                    None => Some(r.remove(u.path)),
                }
            },
            None => None,
        }
    }
}

proof fn lemma_completion_paths(id: u64, base_ref: Seq<char>)
    ensures
        refs::pr_path(id as int, "/result"@) != "refs/heads/"@ + base_ref,
        refs::pr_path(id as int, "/head"@) != "refs/heads/"@ + base_ref,
        refs::pr_path(id as int, "/result"@) != refs::pr_path(id as int, "/head"@),
{
    reveal_strlit("refs/heads/");
    reveal_strlit("refs/forge/prs/");
    reveal_strlit("/result");
    reveal_strlit("/head");
    let r = refs::pr_path(id as int, "/result"@);
    let h = refs::pr_path(id as int, "/head"@);
    let b = "refs/heads/"@ + base_ref;
    assert(r[5] == 'f' && h[5] == 'f');
    assert(b[5] == 'h');
    assert(r.len() != h.len());
}

/// A completed merge moves the base branch and the chain of the pull request together,
/// from exactly the commits that were judged, and takes the pending result away. No other
/// ref changes.
pub proof fn law_completion_applied(
    id: u64,
    base_ref: Seq<char>,
    base_expected: Oid,
    result: Oid,
    head_expected: Oid,
    merge_event: Oid,
    before: Map<Seq<char>, Oid>,
    after: Map<Seq<char>, Oid>,
)
    requires
        after_path_updates(
            before,
            completion_updates(id, base_ref, base_expected, result, head_expected, merge_event),
        ) == Some(after),
    ensures
        ({
            let branch = "refs/heads/"@ + base_ref;
            let head = refs::pr_path(id as int, "/head"@);
            let pending = refs::pr_path(id as int, "/result"@);
            &&& held_at(before, branch) == Some(base_expected)
            &&& held_at(before, head) == Some(head_expected)
            &&& held_at(before, pending) == Some(result)
            &&& held_at(after, branch) == Some(result)
            &&& held_at(after, head) == Some(merge_event)
            &&& held_at(after, pending) is None
            &&& forall|p: Seq<char>|
                p != branch && p != head && p != pending ==> #[trigger] held_at(after, p)
                    == held_at(before, p)
        }),
{
    lemma_completion_paths(id, base_ref);
    let ups = completion_updates(
        id,
        base_ref,
        base_expected,
        result,
        head_expected,
        merge_event,
    );
    let u0: Seq<PathUpdate> = seq![];
    let u1 = seq![ups[0]];
    let u2 = seq![ups[0], ups[1]];
    assert(ups.drop_last() =~= u2);
    assert(u2.drop_last() =~= u1);
    assert(u1.drop_last() =~= u0);
    assert(after_path_updates(before, u0) == Some(before));
    assert(after_path_updates(before, u1) is Some);
    assert(after_path_updates(before, u2) is Some);
}

/// The commands that complete a merge.
pub fn completion_lines(
    id: u64,
    base_ref: &str,
    base_expected: Oid,
    result: Oid,
    head_expected: Oid,
    merge_event: Oid,
) -> (r: Vec<String>)
    ensures
        crate::event::texts(r@) == command_texts(
            completion_updates(id, base_ref@, base_expected, result, head_expected, merge_event),
        ),
{
    let mut out: Vec<String> = Vec::new();
    out.push(refs::update_line(refs::pr_result_ref(id).as_str(), None, Some(result)));
    let branch = crate::text::join2("refs/heads/", base_ref);
    out.push(refs::update_line(branch.as_str(), Some(result), Some(base_expected)));
    out.push(
        refs::update_line(refs::pr_head_ref(id).as_str(), Some(merge_event), Some(head_expected)),
    );
    assert(crate::event::texts(out@) =~= command_texts(
        completion_updates(id, base_ref@, base_expected, result, head_expected, merge_event),
    ));
    out
}

} // verus!
