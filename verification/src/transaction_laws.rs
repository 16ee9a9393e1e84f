//! What the store's transactions ask for and how they end.

use crate::oid::Oid;
use crate::page_laws;
use crate::refs;
use crate::refs::{RefName, RefUpdate};
use crate::transactions;
use crate::transactions::{Allocation, Append, Creation, Outcome, Reply, Request, Take};
use vstd::prelude::*;

verus! {

// ---------------------------------------------------------------------------
// Allocation

/// An issue takes the number in the counter, or 1 where there is none. The counter commit
/// that is written holds the next number, on top of the one that was read; the chain
/// begins with a commit of its own; and the number is given out once the transaction is
/// applied.
pub proof fn law_allocation_takes_the_number(
    tries: u32,
    tip: Oid,
    n: u64,
    counter: Oid,
    genesis: Oid,
)
    requires
        n < u64::MAX,
    ensures
        ({
            let start = Allocation::ReadCounter { tries };
            let fresh = transactions::allocation_after(start, Reply::Tip(None));
            let read = transactions::allocation_after(start, Reply::Tip(Some(tip)));
            let found = transactions::allocation_after(read, Reply::Number(n));
            let wrote = transactions::allocation_after(found, Reply::Object(counter));
            let ready = transactions::allocation_after(wrote, Reply::Object(genesis));
            let first = transactions::allocation_after(
                transactions::allocation_after(fresh, Reply::Object(counter)),
                Reply::Object(genesis),
            );
            &&& transactions::allocation_request(start) == Request::ReadTip(RefName::Counter)
            &&& transactions::allocation_request(fresh) == (Request::WriteCounter {
                next: 2,
                parent: None,
            })
            &&& transactions::allocation_request(read) == Request::ReadCounter(tip)
            &&& transactions::allocation_request(found) == (Request::WriteCounter {
                next: (n + 1) as u64,
                parent: Some(tip),
            })
            &&& transactions::allocation_request(wrote) == Request::WriteGenesis
            &&& transactions::allocation_request(ready) == Request::Transact
            &&& transactions::allocation_updates(ready) == seq![
                RefUpdate { name: RefName::Counter, new: Some(counter), old: Some(tip) },
                RefUpdate { name: RefName::Issue(n), new: Some(genesis), old: None },
            ]
            &&& transactions::allocation_after(ready, Reply::Applied) == Allocation::Done(
                Outcome::Number(n),
            )
            &&& transactions::allocation_updates(first) == seq![
                RefUpdate { name: RefName::Counter, new: Some(counter), old: None },
                RefUpdate { name: RefName::Issue(1), new: Some(genesis), old: None },
            ]
            &&& transactions::allocation_after(first, Reply::Applied) == Allocation::Done(
                Outcome::Number(1),
            )
        }),
{
}

/// A refused allocation asks whether the counter has moved. It tries again where it has,
/// three times in all; where it has not, the number is told to be in use where its chain is
/// there.
pub proof fn law_allocation_refused(take: Take, counter: Oid, genesis: Oid, now: Option<Oid>)
    ensures
        ({
            let s = Allocation::Apply { take, counter, genesis };
            let asks = transactions::allocation_after(s, Reply::Rejected);
            let told = transactions::allocation_after(asks, Reply::Tip(now));
            &&& transactions::allocation_request(asks) == Request::ReadTip(RefName::Counter)
            &&& now != take.tip && take.tries < 2 ==> told == (Allocation::ReadCounter {
                tries: (take.tries + 1) as u32,
            })
            &&& now != take.tip && take.tries >= 2 ==> told == Allocation::Done(Outcome::Exhausted)
            &&& now == take.tip ==> transactions::allocation_request(told) == Request::ReadTip(
                RefName::Issue(take.id),
            )
            &&& now == take.tip ==> transactions::allocation_after(told, Reply::Tip(Some(counter)))
                == Allocation::Done(Outcome::RefExists(RefName::Issue(take.id)))
            &&& now == take.tip ==> transactions::allocation_after(told, Reply::Tip(None))
                == Allocation::Done(Outcome::Rejected)
        }),
{
}

// ---------------------------------------------------------------------------
// Appending

/// An event is appended on top of the tip that was read, or begins a chain; where the chain
/// has moved meanwhile it is read anew, three times, and then given up.
pub proof fn law_append_goes_through(
    tries: u32,
    tip: Option<Oid>,
    commit: Oid,
    now: Option<Oid>,
    name: RefName,
)
    requires
        tries < 3,
    ensures
        ({
            let start = Append::ReadTip { tries };
            let write = transactions::append_after(start, Reply::Tip(tip));
            let ready = transactions::append_after(write, Reply::Object(commit));
            let asks = transactions::append_after(ready, Reply::Rejected);
            let again = transactions::append_after(asks, Reply::Tip(now));
            &&& transactions::append_request(start, name) == Request::ReadTip(name)
            &&& transactions::append_request(write, name) == (Request::WriteEvent { parent: tip })
            &&& transactions::append_request(ready, name) == Request::Transact
            &&& transactions::append_updates(ready, name) == seq![
                RefUpdate { name, new: Some(commit), old: tip },
            ]
            &&& transactions::append_after(ready, Reply::Applied) == Append::Done(
                Outcome::Object(commit),
            )
            &&& transactions::append_request(asks, name) == Request::ReadTip(name)
            &&& now != tip ==> again == (Append::ReadTip { tries: (tries + 1) as u32 })
            &&& now == tip ==> again == Append::Done(Outcome::Rejected)
            &&& transactions::append_after(Append::ReadTip { tries: 3 }, Reply::Tip(tip))
                == Append::Done(Outcome::Exhausted)
        }),
{
}

// ---------------------------------------------------------------------------
// Creation of a pull request

/// A pull request takes the number in the counter. Its chain holds its creation and, on top
/// of it, a pending check; one transaction moves the counter and makes the chain, the ref
/// of the creation, and the refs of the two heads, none of which may be there before.
pub proof fn law_creation_takes_the_number(
    tries: u32,
    tip: Oid,
    n: u64,
    counter: Oid,
    genesis: Oid,
    created: Oid,
    check: Oid,
    source: Oid,
    base: Oid,
)
    requires
        n < u64::MAX,
    ensures
        ({
            let start = Creation::ReadCounter { tries };
            let read = transactions::creation_after(start, Reply::Tip(Some(tip)));
            let found = transactions::creation_after(read, Reply::Number(n));
            let counted = transactions::creation_after(found, Reply::Object(counter));
            let begun = transactions::creation_after(counted, Reply::Object(genesis));
            let made = transactions::creation_after(begun, Reply::Object(created));
            let ready = transactions::creation_after(made, Reply::Object(check));
            &&& transactions::creation_request(start) == Request::ReadTip(RefName::Counter)
            &&& transactions::creation_request(read) == Request::ReadCounter(tip)
            &&& transactions::creation_request(found) == (Request::WriteCounter {
                next: (n + 1) as u64,
                parent: Some(tip),
            })
            &&& transactions::creation_request(counted) == Request::WriteGenesis
            &&& transactions::creation_request(begun) == (Request::WriteCreated {
                id: n,
                parent: genesis,
            })
            &&& transactions::creation_request(made) == (Request::WriteCheck {
                id: n,
                parent: created,
            })
            &&& transactions::creation_request(ready) == Request::Transact
            &&& transactions::creation_updates(ready, source, base) == seq![
                RefUpdate { name: RefName::Counter, new: Some(counter), old: Some(tip) },
                RefUpdate { name: RefName::PrHead(n), new: Some(check), old: None },
                RefUpdate { name: RefName::PrMeta(n), new: Some(created), old: None },
                RefUpdate { name: RefName::PrSource(n), new: Some(source), old: None },
                RefUpdate { name: RefName::PrBase(n), new: Some(base), old: None },
            ]
            &&& transactions::creation_after(ready, Reply::Applied) == Creation::Done(
                Outcome::Number(n),
            )
            &&& transactions::creation_after(start, Reply::Tip(None)) == Creation::WriteCounter(
                Take { tries, tip: None, id: 1, next: 2 },
            )
        }),
{
}

/// A refused creation tries again where the counter has moved, three times in all; where it
/// has not, each of the four refs is asked for in turn, and the number is told to be in use
/// where one of them is there.
pub proof fn law_creation_refused(
    take: Take,
    counter: Oid,
    created: Oid,
    check: Oid,
    now: Option<Oid>,
)
    ensures
        ({
            let s = Creation::Apply { take, counter, created, check };
            let asks = transactions::creation_after(s, Reply::Rejected);
            let told = transactions::creation_after(asks, Reply::Tip(now));
            let none = Reply::Tip(None);
            let there = Reply::Tip(Some(counter));
            let meta = transactions::creation_after(told, none);
            let source = transactions::creation_after(meta, none);
            let base = transactions::creation_after(source, none);
            let used = Creation::Done(Outcome::RefExists(RefName::PrHead(take.id)));
            &&& transactions::creation_request(asks) == Request::ReadTip(RefName::Counter)
            &&& now != take.tip && take.tries < 2 ==> told == (Creation::ReadCounter {
                tries: (take.tries + 1) as u32,
            })
            &&& now != take.tip && take.tries >= 2 ==> told == Creation::Done(Outcome::Exhausted)
            &&& now == take.tip ==> {
                &&& transactions::creation_request(told) == Request::ReadTip(
                    RefName::PrHead(take.id),
                )
                &&& transactions::creation_request(meta) == Request::ReadTip(
                    RefName::PrMeta(take.id),
                )
                &&& transactions::creation_request(source) == Request::ReadTip(
                    RefName::PrSource(take.id),
                )
                &&& transactions::creation_request(base) == Request::ReadTip(
                    RefName::PrBase(take.id),
                )
                &&& transactions::creation_after(told, there) == used
                &&& transactions::creation_after(meta, there) == used
                &&& transactions::creation_after(source, there) == used
                &&& transactions::creation_after(base, there) == used
                &&& transactions::creation_after(base, none) == Creation::Done(Outcome::Rejected)
            }
        }),
{
}

/// Work that fails, in whichever state, ends a transaction without a number.
pub proof fn law_failed_work_ends_it(a: Allocation, b: Append, c: Creation)
    requires
        !(a is Done),
        !(b is Done),
        !(c is Done),
    ensures
        transactions::allocation_after(a, Reply::Failed) == Allocation::Done(Outcome::Failed),
        transactions::append_after(b, Reply::Failed) == Append::Done(Outcome::Failed),
        transactions::creation_after(c, Reply::Failed) == Creation::Done(Outcome::Failed),
{
}

// ---------------------------------------------------------------------------
// The text of a transaction

/// A transaction is written line by line: its beginning, each of its updates in order, and
/// then that it is to be prepared and committed.
pub proof fn law_transaction_lines(lines: Seq<Seq<char>>)
    ensures
        refs::transaction_text(lines) == refs::joined_lines(
            seq!["start"@] + lines + seq!["prepare"@, "commit"@],
        ),
{
    reveal_strlit("start");
    reveal_strlit("start\n");
    reveal_strlit("prepare");
    reveal_strlit("commit");
    reveal_strlit("prepare\ncommit\n");
    let end = seq!["prepare"@, "commit"@];
    assert(end =~= seq!["prepare"@] + seq!["commit"@]);
    page_laws::lemma_joined_add(seq!["start"@] + lines, end);
    page_laws::lemma_joined_add(seq!["start"@], lines);
    page_laws::lemma_joined_add(seq!["prepare"@], seq!["commit"@]);
    page_laws::lemma_joined_one("start"@);
    page_laws::lemma_joined_one("prepare"@);
    page_laws::lemma_joined_one("commit"@);
    assert("start"@ + seq!['\n'] =~= "start\n"@);
    assert("prepare"@ + seq!['\n'] + ("commit"@ + seq!['\n']) =~= "prepare\ncommit\n"@);
}

/// An update names the ref, the new end and the old one, in this order; a missing end is
/// written as forty zeros, and no id of an object is written so unless it is zero.
pub proof fn law_update_line(path: Seq<char>, new: Option<Oid>, old: Option<Oid>, k: int)
    ensures
        refs::update_text(path, new, old) == "update "@ + path + " "@ + refs::end_text(new) + " "@
            + refs::end_text(old),
        refs::end_text(new).len() == 40,
        0 <= k < 40 ==> refs::end_text(None)[k] == '0',
        new is Some ==> refs::end_text(new) == crate::oid::oid_text(new.unwrap()),
{
    reveal_strlit("0000000000000000000000000000000000000000");
    if let Some(o) = new {
        crate::oid::law_oid_reads_back(o);
    }
}

} // verus!
