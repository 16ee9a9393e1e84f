//! Passages of a text, and its lines.

use crate::refs;
use crate::roundtrip;
use crate::text;
use vstd::prelude::*;

verus! {

/// Does `part` stand somewhere in `s`?
pub open spec fn holds(s: Seq<char>, part: Seq<char>) -> bool {
    exists|k: int| #[trigger] roundtrip::stands_at(s, k, part)
}

/// What stands between two texts is held by the whole.
pub proof fn lemma_holds(a: Seq<char>, part: Seq<char>, b: Seq<char>)
    ensures
        holds(a + part + b, part),
{
    assert(roundtrip::stands_at(a + part + b, a.len() as int, part));
}

/// Is `l` the line at `k` of `s`: does it begin the text or follow a line feed, and end
/// the text or stand before one?
pub open spec fn line_at(s: Seq<char>, k: int, l: Seq<char>) -> bool {
    &&& roundtrip::stands_at(s, k, l)
    &&& k == 0 || s[k - 1] == '\n'
    &&& k + l.len() == s.len() || s[k + l.len()] == '\n'
}

/// Is `l` shown at `k` of `s`, on a line of its own? White space at the end of `l` may be
/// missing; where it has none, it is the whole line.
pub open spec fn line_shown(s: Seq<char>, k: int, l: Seq<char>) -> bool {
    &&& roundtrip::stands_at(s, k, text::trimmed_end(l))
    &&& k == 0 || s[k - 1] == '\n'
    &&& l.len() > 0 && !text::is_white(l.last()) ==> line_at(s, k, l)
}

/// Does `s` hold no line feed?
pub open spec fn in_one_line(s: Seq<char>) -> bool {
    forall|i: int| 0 <= i < s.len() ==> #[trigger] s[i] != '\n'
}

/// There is one line at a place.
pub proof fn lemma_one_line(s: Seq<char>, k: int, a: Seq<char>, b: Seq<char>)
    requires
        line_at(s, k, a),
        line_at(s, k, b),
        in_one_line(a),
        in_one_line(b),
    ensures
        a == b,
{
    if a.len() < b.len() {
        assert(s[k + a.len()] == b[a.len() as int]);
    }
    if b.len() < a.len() {
        assert(s[k + b.len()] == a[b.len() as int]);
    }
    assert forall|i: int| 0 <= i < a.len() implies a[i] == b[i] by {
        assert(s[k + i] == a[i]);
        assert(s[k + i] == b[i]);
    }
    assert(a =~= b);
}

/// Trimming takes nothing but white space from the end.
pub proof fn lemma_trimmed_end(s: Seq<char>)
    ensures
        text::trimmed_end(s).len() <= s.len(),
        s.take(text::trimmed_end(s).len() as int) == text::trimmed_end(s),
        forall|i: int|
            text::trimmed_end(s).len() <= i < s.len() ==> text::is_white(#[trigger] s[i]),
        text::trimmed_end(s).len() > 0 ==> !text::is_white(text::trimmed_end(s).last()),
    decreases s.len(),
{
    if s.len() > 0 && text::is_white(s.last()) {
        let t = s.drop_last();
        lemma_trimmed_end(t);
        let n = text::trimmed_end(s).len() as int;
        assert(s.take(n) =~= t.take(n));
        assert forall|i: int| n <= i < s.len() implies text::is_white(#[trigger] s[i]) by {
            if i < t.len() {
                assert(t[i] == s[i]);
            }
        }
    } else {
        assert(s.take(s.len() as int) =~= s);
    }
}

/// Where the `i`-th of the lines begins.
pub open spec fn place_of(ls: Seq<Seq<char>>, i: int) -> int
    decreases i,
{
    if i <= 0 {
        0
    } else {
        place_of(ls, i - 1) + ls[i - 1].len() + 1
    }
}

proof fn lemma_place_prefix(ls: Seq<Seq<char>>, i: int)
    requires
        0 <= i < ls.len(),
    ensures
        place_of(ls.drop_last(), i) == place_of(ls, i),
    decreases i,
{
    if i > 0 {
        lemma_place_prefix(ls, i - 1);
    }
}

proof fn lemma_joined_lines(ls: Seq<Seq<char>>, i: int)
    requires
        0 <= i < ls.len(),
    ensures
        refs::joined_lines(ls).len() == place_of(ls, ls.len() as int),
        0 <= place_of(ls, i),
        roundtrip::stands_at(refs::joined_lines(ls), place_of(ls, i), ls[i]),
        place_of(ls, i) + ls[i].len() < refs::joined_lines(ls).len(),
        refs::joined_lines(ls)[place_of(ls, i) + ls[i].len()] == '\n',
        place_of(ls, i) == 0 || refs::joined_lines(ls)[place_of(ls, i) - 1] == '\n',
        i > 0 ==> place_of(ls, i) > place_of(ls, i - 1),
    decreases ls.len(),
{
    let a = ls.drop_last();
    let t = refs::joined_lines(ls);
    let n = ls.len() - 1;
    if a.len() > 0 {
        lemma_joined_lines(a, if i < n {
            i
        } else {
            n - 1
        });
    } else {
        assert(refs::joined_lines(a) =~= seq![]);
    }
    lemma_place_prefix_end(ls);
    assert(t =~= refs::joined_lines(a) + ls.last() + seq!['\n']);
    let k = place_of(ls, i);
    if i < n {
        lemma_place_prefix(ls, i);
        assert(a[i] == ls[i]);
        let u = refs::joined_lines(a);
        assert forall|j: int| 0 <= j < ls[i].len() implies t[k + j] == #[trigger] ls[i][j] by {
            assert(u[k + j] == a[i][j]);
        }
        assert(t[k + ls[i].len()] == u[k + ls[i].len()]);
        if k > 0 {
            assert(t[k - 1] == u[k - 1]);
        }
    } else {
        assert(k == refs::joined_lines(a).len());
        if k > 0 {
            assert(a.len() > 0);
            assert(a[n - 1] == ls[n - 1]);
            let u = refs::joined_lines(a);
            lemma_place_prefix(ls, n - 1);
            assert(t[k - 1] == u[k - 1]);
        }
    }
}

proof fn lemma_place_prefix_end(ls: Seq<Seq<char>>)
    requires
        ls.len() > 0,
    ensures
        place_of(ls.drop_last(), ls.len() - 1) == place_of(ls, ls.len() - 1),
    decreases ls.len(),
{
    lemma_places_agree(ls.drop_last(), ls, ls.len() - 1);
}

/// Lists that agree up to a place have the same places up to it.
pub proof fn lemma_places_agree(a: Seq<Seq<char>>, b: Seq<Seq<char>>, n: int)
    requires
        n <= a.len(),
        n <= b.len(),
        forall|i: int| 0 <= i < n ==> #[trigger] a[i] == b[i],
    ensures
        place_of(a, n) == place_of(b, n),
    decreases n,
{
    if n > 0 {
        lemma_places_agree(a, b, n - 1);
        assert(a[n - 1] == b[n - 1]);
    }
}

/// Each line ends with a line feed.
pub proof fn lemma_line_ends(ls: Seq<Seq<char>>, i: int)
    requires
        0 <= i < ls.len(),
    ensures
        0 <= place_of(ls, i) + ls[i].len() < refs::joined_lines(ls).len(),
        refs::joined_lines(ls)[place_of(ls, i) + ls[i].len()] == '\n',
{
    lemma_joined_lines(ls, i);
}

/// The text of lines, trimmed at its end.
pub open spec fn page_of(ls: Seq<Seq<char>>) -> Seq<char> {
    text::trimmed_end(refs::joined_lines(ls))
}

/// Each line that is more than white space is shown on its page.
pub proof fn lemma_page_shows(ls: Seq<Seq<char>>, i: int)
    requires
        0 <= i < ls.len(),
        text::trimmed_end(ls[i]).len() > 0,
    ensures
        line_shown(page_of(ls), place_of(ls, i), ls[i]),
        i > 0 ==> place_of(ls, i) > place_of(ls, i - 1),
{
    let t = refs::joined_lines(ls);
    let page = page_of(ls);
    let l = ls[i];
    let k = place_of(ls, i);
    lemma_joined_lines(ls, i);
    lemma_trimmed_end(t);
    lemma_trimmed_end(l);
    let m = text::trimmed_end(l);
    assert(l.take(m.len() as int)[m.len() - 1] == l[m.len() - 1]);
    assert(t[k + (m.len() - 1)] == l[m.len() - 1]);
    assert(!text::is_white(t[k + (m.len() - 1)]));
    assert(k + m.len() <= page.len());
    assert(forall|j: int| 0 <= j < page.len() ==> t.take(page.len() as int)[j] == t[j]);
    assert forall|j: int| 0 <= j < m.len() implies page[k + j] == #[trigger] m[j] by {
        assert(l.take(m.len() as int)[j] == l[j]);
        assert(t[k + j] == l[j]);
    }
    if k > 0 {
        assert(page[k - 1] == t[k - 1]);
    }
    if !text::is_white(l.last()) {
        assert(m == l);
        if k + l.len() < page.len() {
            assert(page[k + l.len()] == t[k + l.len()]);
        }
    }
}

/// Pages that differ in one line, where both end in visible text, are different.
pub proof fn lemma_pages_differ(a: Seq<Seq<char>>, b: Seq<Seq<char>>, i: int)
    requires
        0 <= i < a.len(),
        i < b.len(),
        forall|j: int| 0 <= j < i ==> #[trigger] a[j] == b[j],
        a[i] != b[i],
        in_one_line(a[i]),
        in_one_line(b[i]),
        a[i].len() > 0 && !text::is_white(a[i].last()),
        b[i].len() > 0 && !text::is_white(b[i].last()),
    ensures
        page_of(a) != page_of(b),
{
    lemma_page_shows(a, i);
    lemma_page_shows(b, i);
    lemma_places_agree(a, b, i);
    if page_of(a) == page_of(b) {
        lemma_one_line(page_of(a), place_of(a, i), a[i], b[i]);
    }
}

} // verus!
