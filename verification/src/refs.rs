//! The refs that a forge keeps in a repository, and the texts of ref updates.

use crate::oid;
use crate::oid::Oid;
use crate::text;
use vstd::prelude::*;

verus! {

/// The ref of the counter that numbers issues and pull requests.
pub const COUNTER_REF: &'static str = "refs/forge/meta/counter";

/// The id that stands for "no object" in a ref update.
pub const ZERO_OID: &'static str = "0000000000000000000000000000000000000000";

/// A ref of the forge.
#[derive(Debug, Clone, Copy, PartialEq, Eq, Structural)]
pub enum RefName {
    /// The counter.
    Counter,
    /// The event chain of an issue.
    Issue(u64),
    /// The event chain of a pull request.
    PrHead(u64),
    /// The creation of a pull request.
    PrMeta(u64),
    /// The head that a pull request offers.
    PrSource(u64),
    /// The head that a pull request was made against.
    PrBase(u64),
    /// The result of a merge that is not complete yet.
    PrResult(u64),
}

/// The path of the chain of the issue `n`.
pub open spec fn issue_path(n: int) -> Seq<char> {
    "refs/forge/issues/"@ + text::decimal(n as nat)
}

/// The path of the ref `leaf` of the pull request `n`.
pub open spec fn pr_path(n: int, leaf: Seq<char>) -> Seq<char> {
    "refs/forge/prs/"@ + text::decimal(n as nat) + leaf
}

/// The path of a ref.
pub open spec fn ref_path(r: RefName) -> Seq<char> {
    match r {
        RefName::Counter => "refs/forge/meta/counter"@,
        RefName::Issue(n) => issue_path(n as int),
        RefName::PrHead(n) => pr_path(n as int, "/head"@),
        RefName::PrMeta(n) => pr_path(n as int, "/meta"@),
        RefName::PrSource(n) => pr_path(n as int, "/source"@),
        RefName::PrBase(n) => pr_path(n as int, "/base"@),
        RefName::PrResult(n) => pr_path(n as int, "/result"@),
    }
}

/// Which of the refs of a pull request this is; nothing for other refs.
spec fn pr_leaf(r: RefName) -> Option<(int, Seq<char>)> {
    match r {
        RefName::PrHead(n) => Some((n as int, "/head"@)),
        RefName::PrMeta(n) => Some((n as int, "/meta"@)),
        RefName::PrSource(n) => Some((n as int, "/source"@)),
        RefName::PrBase(n) => Some((n as int, "/base"@)),
        RefName::PrResult(n) => Some((n as int, "/result"@)),
        _ => None,
    }
}

proof fn lemma_first_letter(r: RefName)
    ensures
        ref_path(r).len() > 15,
        ref_path(r)[11] == (match r {
            RefName::Counter => 'm',
            RefName::Issue(_) => 'i',
            _ => 'p',
        }),
{
    reveal_strlit("refs/forge/meta/counter");
    reveal_strlit("refs/forge/issues/");
    reveal_strlit("refs/forge/prs/");
    match r {
        RefName::Counter => {},
        RefName::Issue(n) => {
            text::law_decimal_reads_back(n as nat);
        },
        _ => {
            text::law_decimal_reads_back(pr_leaf(r).unwrap().0 as nat);
            let k = pr_leaf(r).unwrap();
            assert("refs/forge/prs/"@.len() == 15);
            assert(ref_path(r) == pr_path(k.0, k.1));
            assert(ref_path(r)[11] == "refs/forge/prs/"@[11]);
        },
    }
}

proof fn lemma_prefix_cancels(p: Seq<char>, a: Seq<char>, b: Seq<char>)
    requires
        p + a == p + b,
    ensures
        a == b,
{
    assert(a =~= (p + a).skip(p.len() as int));
    assert(b =~= (p + b).skip(p.len() as int));
}

proof fn lemma_suffix_cancels(a: Seq<char>, b: Seq<char>, s: Seq<char>)
    requires
        a + s == b + s,
    ensures
        a == b,
{
    assert((a + s).len() == (b + s).len());
    assert(a =~= (a + s).take(a.len() as int));
    assert(b =~= (b + s).take(b.len() as int));
}

/// The last two letters of a pull request's ref tell which of its refs it is.
proof fn lemma_last_letters(r: RefName)
    requires
        pr_leaf(r) is Some,
    ensures
        ({
            let s = ref_path(r);
            let last = (s[s.len() - 2], s[s.len() - 1]);
            last == (match r {
                RefName::PrHead(_) => ('a', 'd'),
                RefName::PrMeta(_) => ('t', 'a'),
                RefName::PrSource(_) => ('c', 'e'),
                RefName::PrBase(_) => ('s', 'e'),
                _ => ('l', 't'),
            })
        }),
{
    reveal_strlit("/head");
    reveal_strlit("/meta");
    reveal_strlit("/source");
    reveal_strlit("/base");
    reveal_strlit("/result");
    let k = pr_leaf(r).unwrap();
    let s = ref_path(r);
    let head = "refs/forge/prs/"@ + text::decimal(k.0 as nat);
    assert(s == head + k.1);
    assert("/head"@.len() == 5 && "/meta"@.len() == 5 && "/source"@.len() == 7 && "/base"@.len() == 5
        && "/result"@.len() == 7);
    assert(s[s.len() - 1] == k.1[k.1.len() - 1]);
    assert(s[s.len() - 2] == k.1[k.1.len() - 2]);
}

/// All refs lie under `refs/forge/`, the refs of a pull request under its number, and each
/// of them ends with the word for what it points to.
pub proof fn law_ref_paths_say_what_they_hold(n: u64)
    ensures
        text::starts_with(ref_path(RefName::Counter), "refs/forge/"@),
        text::starts_with(ref_path(RefName::Issue(n)), "refs/forge/issues/"@),
        text::ends_with(ref_path(RefName::Issue(n)), text::decimal(n as nat)),
        ({
            let under = "refs/forge/prs/"@ + text::decimal(n as nat);
            &&& text::starts_with(ref_path(RefName::PrHead(n)), under)
            &&& text::starts_with(ref_path(RefName::PrMeta(n)), under)
            &&& text::starts_with(ref_path(RefName::PrSource(n)), under)
            &&& text::starts_with(ref_path(RefName::PrBase(n)), under)
            &&& text::starts_with(ref_path(RefName::PrResult(n)), under)
        }),
        text::ends_with(ref_path(RefName::PrHead(n)), "/head"@),
        text::ends_with(ref_path(RefName::PrMeta(n)), "/meta"@),
        text::ends_with(ref_path(RefName::PrSource(n)), "/source"@),
        text::ends_with(ref_path(RefName::PrBase(n)), "/base"@),
        text::ends_with(ref_path(RefName::PrResult(n)), "/result"@),
{
    reveal_strlit("refs/forge/");
    reveal_strlit("refs/forge/meta/counter");
    let counter = ref_path(RefName::Counter);
    assert(counter.take(11) =~= "refs/forge/"@);
    let d = text::decimal(n as nat);
    lemma_ends("refs/forge/issues/"@, d);
    let under = "refs/forge/prs/"@ + d;
    lemma_ends(under, "/head"@);
    lemma_ends(under, "/meta"@);
    lemma_ends(under, "/source"@);
    lemma_ends(under, "/base"@);
    lemma_ends(under, "/result"@);
}

proof fn lemma_ends(a: Seq<char>, b: Seq<char>)
    ensures
        text::starts_with(a + b, a),
        text::ends_with(a + b, b),
{
    assert((a + b).take(a.len() as int) =~= a);
    assert((a + b).skip((a + b).len() - b.len()) =~= b);
}

/// Different refs have different paths.
pub proof fn law_ref_path_injective(a: RefName, b: RefName)
    requires
        ref_path(a) == ref_path(b),
    ensures
        a == b,
{
    lemma_first_letter(a);
    lemma_first_letter(b);
    match (a, b) {
        (RefName::Counter, RefName::Counter) => {},
        (RefName::Issue(n), RefName::Issue(m)) => {
            lemma_prefix_cancels(
                "refs/forge/issues/"@,
                text::decimal(n as nat),
                text::decimal(m as nat),
            );
            text::law_decimal_injective(n as nat, m as nat);
        },
        _ => {
            assert(pr_leaf(a) is Some && pr_leaf(b) is Some);
            lemma_last_letters(a);
            lemma_last_letters(b);
            let k = pr_leaf(a).unwrap();
            let l = pr_leaf(b).unwrap();
            assert(k.1 == l.1);
            let p = "refs/forge/prs/"@;
            lemma_suffix_cancels(
                p + text::decimal(k.0 as nat),
                p + text::decimal(l.0 as nat),
                k.1,
            );
            lemma_prefix_cancels(p, text::decimal(k.0 as nat), text::decimal(l.0 as nat));
            text::law_decimal_injective(k.0 as nat, l.0 as nat);
        },
    }
}

/// The ref of the chain of the issue `n`.
pub fn issue_ref(n: u64) -> (r: String)
    ensures
        r@ == issue_path(n as int),
{
    let mut s = "refs/forge/issues/".to_owned();
    s.append(text::decimal_string(n).as_str());
    s
}

/// The ref `leaf` of the pull request `n`.
fn pr_ref(n: u64, leaf: &str) -> (r: String)
    ensures
        r@ == pr_path(n as int, leaf@),
{
    let mut s = "refs/forge/prs/".to_owned();
    s.append(text::decimal_string(n).as_str());
    s.append(leaf);
    s
}

/// The ref of the chain of the pull request `n`.
pub fn pr_head_ref(n: u64) -> (r: String)
    ensures
        r@ == pr_path(n as int, "/head"@),
{
    pr_ref(n, "/head")
}

/// The ref of the creation of the pull request `n`.
pub fn pr_meta_ref(n: u64) -> (r: String)
    ensures
        r@ == pr_path(n as int, "/meta"@),
{
    pr_ref(n, "/meta")
}

/// The ref of the head that the pull request `n` offers.
pub fn pr_source_ref(n: u64) -> (r: String)
    ensures
        r@ == pr_path(n as int, "/source"@),
{
    pr_ref(n, "/source")
}

/// The ref of the head that the pull request `n` was made against.
pub fn pr_base_ref(n: u64) -> (r: String)
    ensures
        r@ == pr_path(n as int, "/base"@),
{
    pr_ref(n, "/base")
}

/// The ref that keeps the merge result of the pull request `n` alive until the
/// merge is complete.
pub fn pr_result_ref(n: u64) -> (r: String)
    ensures
        r@ == pr_path(n as int, "/result"@),
{
    pr_ref(n, "/result")
}

impl RefName {
    /// The path.
    pub fn path(self) -> (r: String)
        ensures
            r@ == ref_path(self),
    {
        match self {
            RefName::Counter => COUNTER_REF.to_owned(),
            RefName::Issue(n) => issue_ref(n),
            RefName::PrHead(n) => pr_head_ref(n),
            RefName::PrMeta(n) => pr_meta_ref(n),
            RefName::PrSource(n) => pr_source_ref(n),
            RefName::PrBase(n) => pr_base_ref(n),
            RefName::PrResult(n) => pr_result_ref(n),
        }
    }
}

// ---------------------------------------------------------------------------
// Updates

/// A conditional update: `name` goes from `old` to `new`, where `None` is the
/// absence of the ref. It is refused unless the ref holds `old`.
#[derive(Debug, Clone, Copy, PartialEq, Eq, Structural)]
pub struct RefUpdate {
    pub name: RefName,
    pub new: Option<Oid>,
    pub old: Option<Oid>,
}

/// The text of an id in a ref update; no object is written as zeros.
pub open spec fn end_text(o: Option<Oid>) -> Seq<char> {
    match o {
        Some(x) => oid::oid_text(x),
        None => "0000000000000000000000000000000000000000"@,
    }
}

/// The command that moves the ref `path` from `old` to `new`.
pub open spec fn update_text(path: Seq<char>, new: Option<Oid>, old: Option<Oid>) -> Seq<char> {
    "update "@ + path + " "@ + end_text(new) + " "@ + end_text(old)
}

/// The text of an id in a ref update.
fn end_string(o: Option<Oid>) -> (r: String)
    ensures
        r@ == end_text(o),
{
    match o {
        Some(x) => x.to_hex(),
        None => ZERO_OID.to_owned(),
    }
}

/// The command that moves the ref `path` from `old` to `new`.
pub fn update_line(path: &str, new: Option<Oid>, old: Option<Oid>) -> (r: String)
    ensures
        r@ == update_text(path@, new, old),
{
    let mut s = "update ".to_owned();
    s.append(path);
    s.append(" ");
    s.append(end_string(new).as_str());
    s.append(" ");
    s.append(end_string(old).as_str());
    s
}

/// The commands of a list of updates.
pub open spec fn update_texts(ups: Seq<RefUpdate>) -> Seq<Seq<char>> {
    ups.map_values(|u: RefUpdate| update_text(ref_path(u.name), u.new, u.old))
}

/// The commands of a list of updates.
pub fn update_lines(ups: &[RefUpdate]) -> (r: Vec<String>)
    ensures
        crate::event::texts(r@) == update_texts(ups@),
{
    let mut out: Vec<String> = Vec::new();
    let mut i: usize = 0;
    while i < ups.len()
        invariant
            i <= ups@.len(),
            out.len() == i,
            forall|k: int|
                0 <= k < i ==> (#[trigger] out@[k])@ == update_text(
                    ref_path(ups@[k].name),
                    ups@[k].new,
                    ups@[k].old,
                ),
        decreases ups@.len() - i,
    {
        let u = ups[i];
        out.push(update_line(u.name.path().as_str(), u.new, u.old));
        i = i + 1;
    }
    assert(crate::event::texts(out@) =~= update_texts(ups@));
    out
}

/// The lines, each with a line feed behind it.
pub open spec fn joined_lines(lines: Seq<Seq<char>>) -> Seq<char>
    decreases lines.len(),
{
    if lines.len() == 0 {
        seq![]
    } else {
        joined_lines(lines.drop_last()) + lines.last() + seq!['\n']
    }
}

/// The input of `git update-ref --stdin` that applies the commands as one
/// transaction: all of them or none.
pub open spec fn transaction_text(lines: Seq<Seq<char>>) -> Seq<char> {
    "start\n"@ + joined_lines(lines) + "prepare\ncommit\n"@
}

/// The input of `git update-ref --stdin` that applies the commands as one
/// transaction.
pub fn transaction_input(lines: &[String]) -> (r: String)
    ensures
        r@ == transaction_text(crate::event::texts(lines@)),
{
    let ghost all = crate::event::texts(lines@);
    let mut s = "start\n".to_owned();
    let mut i: usize = 0;
    assert(all.take(0) =~= seq![]);
    assert(s@ =~= "start\n"@ + joined_lines(all.take(0)));
    while i < lines.len()
        invariant
            i <= lines@.len(),
            all == crate::event::texts(lines@),
            s@ == "start\n"@ + joined_lines(all.take(i as int)),
        decreases lines@.len() - i,
    {
        let ghost before = s@;
        s.append(lines[i].as_str());
        s.push('\n');
        proof {
            assert(all.take(i + 1).drop_last() =~= all.take(i as int));
            assert(all.take(i + 1).last() == lines@[i as int]@);
            assert(s@ =~= "start\n"@ + joined_lines(all.take(i + 1)));
        }
        i = i + 1;
    }
    assert(all.take(i as int) =~= all);
    s.append("prepare\ncommit\n");
    s
}

// ---------------------------------------------------------------------------
// What a transaction does

/// What the ref `r` holds.
pub open spec fn held(refs: Map<RefName, Oid>, r: RefName) -> Option<Oid> {
    if refs.contains_key(r) {
        Some(refs[r])
    } else {
        None
    }
}

/// The refs with `r` set to `o`.
pub open spec fn with_ref(refs: Map<RefName, Oid>, r: RefName, o: Option<Oid>) -> Map<RefName, Oid> {
    match o {
        Some(x) => refs.insert(r, x),
        None => refs.remove(r),
    }
}

/// The refs after a transaction of the updates, where it is accepted: where every
/// ref holds what the update names as old.
pub open spec fn after_updates(refs: Map<RefName, Oid>, ups: Seq<RefUpdate>) -> Option<
    Map<RefName, Oid>,
>
    decreases ups.len(),
{
    if ups.len() == 0 {
        Some(refs)
    } else {
        match after_updates(refs, ups.drop_last()) {
            Some(r) => if held(refs, ups.last().name) == ups.last().old {
                Some(with_ref(r, ups.last().name, ups.last().new))
            } else {
                None
            },
            None => None,
        }
    }
}

} // verus!
