//! What the pages and lists show of issues and pull requests.

use crate::event;
use crate::passages;
use crate::refs;
use crate::render;
use crate::text;
use vstd::prelude::*;

verus! {

/// Lines behind lines.
pub proof fn lemma_joined_add(a: Seq<Seq<char>>, b: Seq<Seq<char>>)
    ensures
        refs::joined_lines(a + b) == refs::joined_lines(a) + refs::joined_lines(b),
    decreases b.len(),
{
    if b.len() == 0 {
        assert(a + b =~= a);
        assert(refs::joined_lines(b) =~= seq![]);
        assert(refs::joined_lines(a) + refs::joined_lines(b) =~= refs::joined_lines(a));
    } else {
        lemma_joined_add(a, b.drop_last());
        assert((a + b).drop_last() =~= a + b.drop_last());
        assert((a + b).last() == b.last());
        assert(refs::joined_lines(a + b) =~= refs::joined_lines(a) + refs::joined_lines(b));
    }
}

/// One line.
pub proof fn lemma_joined_one(l: Seq<char>)
    ensures
        refs::joined_lines(seq![l]) == l + seq!['\n'],
{
    assert(seq![l].drop_last() =~= Seq::<Seq<char>>::empty());
    assert(refs::joined_lines(Seq::<Seq<char>>::empty()) =~= seq![]);
    assert(refs::joined_lines(seq![l]) =~= l + seq!['\n']);
}

/// A line that is there only where there is something to show.
pub open spec fn opt_line(label: Seq<char>, o: Option<Seq<char>>) -> Seq<Seq<char>> {
    match o {
        Some(s) => seq![label + render::shown(s)],
        None => seq![],
    }
}

/// The line of the labels, where there are any: all of them, with commas between them.
pub open spec fn label_line(labels: Seq<Seq<char>>) -> Seq<Seq<char>> {
    if labels.len() == 0 {
        seq![]
    } else {
        seq!["labels: "@ + render::shown(text::joined(labels, ", "@))]
    }
}

/// A line for each of the texts.
pub open spec fn row_lines(before: Seq<char>, rows: Seq<Seq<char>>) -> Seq<Seq<char>> {
    rows.map_values(|c: Seq<char>| before + render::shown(c))
}

proof fn lemma_line_feed()
    ensures
        "\n"@ == seq!['\n'],
{
    reveal_strlit("\n");
    assert("\n"@ =~= seq!['\n']);
}

proof fn lemma_opt_line(label: Seq<char>, o: Option<Seq<char>>)
    ensures
        refs::joined_lines(opt_line(label, o)) == render::field_text(label, o),
{
    lemma_line_feed();
    match o {
        Some(s) => {
            lemma_joined_one(label + render::shown(s));
        },
        None => {
            assert(refs::joined_lines(opt_line(label, o)) =~= seq![]);
        },
    }
}

proof fn lemma_label_line(labels: Seq<Seq<char>>)
    ensures
        refs::joined_lines(label_line(labels)) == render::labels_text(labels),
{
    lemma_line_feed();
    if labels.len() > 0 {
        lemma_joined_one("labels: "@ + render::shown(text::joined(labels, ", "@)));
    } else {
        assert(refs::joined_lines(label_line(labels)) =~= seq![]);
    }
}

proof fn lemma_row_lines(before: Seq<char>, rows: Seq<Seq<char>>)
    ensures
        refs::joined_lines(row_lines(before, rows)) == render::rows_text(before, rows),
    decreases rows.len(),
{
    lemma_line_feed();
    let ls = row_lines(before, rows);
    if rows.len() == 0 {
        assert(refs::joined_lines(ls) =~= seq![]);
    } else {
        lemma_row_lines(before, rows.drop_last());
        assert(ls.drop_last() =~= row_lines(before, rows.drop_last()));
        assert(refs::joined_lines(ls) =~= render::rows_text(before, rows));
    }
}

proof fn lemma_visible(l: Seq<char>, i: int)
    requires
        0 <= i < l.len(),
        !text::is_white(l[i]),
    ensures
        text::trimmed_end(l).len() > 0,
{
    passages::lemma_trimmed_end(l);
}

proof fn lemma_shown_in_one_line(s: Seq<char>)
    ensures
        passages::in_one_line(render::shown(s)),
{
    render::law_shown_has_no_controls(s);
    assert forall|i: int| 0 <= i < render::shown(s).len() implies #[trigger] render::shown(s)[i]
        != '\n' by {
        assert(!render::is_control(render::shown(s)[i]));
    }
}

proof fn lemma_in_one_line_add(a: Seq<char>, b: Seq<char>)
    requires
        passages::in_one_line(a),
        passages::in_one_line(b),
    ensures
        passages::in_one_line(a + b),
{
    assert forall|i: int| 0 <= i < (a + b).len() implies #[trigger] (a + b)[i] != '\n' by {
        if i < a.len() {
            assert((a + b)[i] == a[i]);
        } else {
            assert((a + b)[i] == b[i - a.len()]);
        }
    }
}

/// Is `s` text that a terminal shows as it is, with no white space at its end?
pub open spec fn is_visible(s: Seq<char>) -> bool {
    s.len() > 0 && render::is_plain(s) && !text::is_white(s.last())
}

// ---------------------------------------------------------------------------
// Issues

/// The first line of the page of an issue.
pub open spec fn issue_head(st: event::IssueModel) -> Seq<char> {
    "#"@ + text::decimal(st.id as nat) + " "@ + render::shown(
        match st.title {
            Some(t) => t,
            None => "(untitled)"@,
        },
    ) + " — "@ + (if st.open {
        "open"@
    } else {
        "closed"@
    })
}

/// The lines of the page of an issue: what it is, its description and its labels, and,
/// behind an empty line, its comments.
pub open spec fn issue_lines(st: event::IssueModel) -> Seq<Seq<char>> {
    seq![issue_head(st)] + opt_line("description: "@, st.description) + label_line(st.labels)
        + seq![Seq::<char>::empty()] + (if st.comments.len() == 0 {
        seq![]
    } else {
        seq!["comments:"@] + row_lines("  - "@, st.comments)
    })
}

/// The page of an issue is its lines.
pub proof fn law_issue_page_is_its_lines(st: event::IssueModel)
    ensures
        render::issue_page_text(st) == passages::page_of(issue_lines(st)),
{
    lemma_line_feed();
    let l1 = seq![issue_head(st)];
    let l2 = opt_line("description: "@, st.description);
    let l3 = label_line(st.labels);
    let l4 = seq![Seq::<char>::empty()];
    let l5 = if st.comments.len() == 0 {
        seq![]
    } else {
        seq!["comments:"@] + row_lines("  - "@, st.comments)
    };
    lemma_joined_one(issue_head(st));
    lemma_opt_line("description: "@, st.description);
    lemma_label_line(st.labels);
    lemma_joined_one(Seq::<char>::empty());
    lemma_joined_add(l1, l2);
    lemma_joined_add(l1 + l2, l3);
    lemma_joined_add(l1 + l2 + l3, l4);
    lemma_joined_add(l1 + l2 + l3 + l4, l5);
    reveal_strlit("comments:");
    reveal_strlit("comments:\n");
    if st.comments.len() == 0 {
        assert(refs::joined_lines(l5) =~= seq![]);
    } else {
        lemma_joined_one("comments:"@);
        lemma_row_lines("  - "@, st.comments);
        lemma_joined_add(seq!["comments:"@], row_lines("  - "@, st.comments));
        assert("comments:"@ + seq!['\n'] =~= "comments:\n"@);
    }
    assert(refs::joined_lines(issue_lines(st)) =~= "#"@ + text::decimal(st.id as nat) + " "@
        + render::shown(render::text_or(st.title, "(untitled)"@)) + " — "@ + render::open_text(
        st.open,
    ) + "\n"@ + render::field_text("description: "@, st.description) + render::labels_text(st.labels)
        + "\n"@ + render::issue_comments_text(st.comments));
}

proof fn lemma_issue_head(st: event::IssueModel)
    ensures
        text::trimmed_end(issue_head(st)).len() > 0,
        issue_head(st).len() > 0,
        !text::is_white(issue_head(st).last()),
        passages::in_one_line(issue_head(st)),
{
    reveal_strlit("#");
    reveal_strlit(" ");
    reveal_strlit(" — ");
    reveal_strlit("open");
    reveal_strlit("closed");
    let h = issue_head(st);
    let t = match st.title {
        Some(t) => t,
        None => "(untitled)"@,
    };
    assert(h[0] == '#');
    lemma_visible(h, 0);
    let d = text::decimal(st.id as nat);
    text::law_decimal_reads_back(st.id as nat);
    assert(passages::in_one_line(d)) by {
        assert forall|i: int| 0 <= i < d.len() implies #[trigger] d[i] != '\n' by {
            assert(text::is_digit(d[i]));
        }
    }
    lemma_shown_in_one_line(t);
    lemma_in_one_line_add("#"@, d);
    lemma_in_one_line_add("#"@ + d, " "@);
    lemma_in_one_line_add("#"@ + d + " "@, render::shown(t));
    lemma_in_one_line_add("#"@ + d + " "@ + render::shown(t), " — "@);
    let state = if st.open {
        "open"@
    } else {
        "closed"@
    };
    lemma_in_one_line_add("#"@ + d + " "@ + render::shown(t) + " — "@, state);
    assert(h.last() == state.last());
}

/// The page of an issue begins with its number, its title and whether it is open.
pub proof fn law_issue_page_head(st: event::IssueModel)
    ensures
        passages::line_at(render::issue_page_text(st), 0, issue_head(st)),
{
    law_issue_page_is_its_lines(st);
    lemma_issue_head(st);
    assert(issue_lines(st)[0] == issue_head(st));
    passages::lemma_page_shows(issue_lines(st), 0);
}

proof fn lemma_issue_description(st: event::IssueModel, d: Seq<char>)
    requires
        st.description == Some(d),
    ensures
        issue_lines(st).len() > 1,
        issue_lines(st)[1] == "description: "@ + render::shown(d),
        passages::place_of(issue_lines(st), 1) == issue_head(st).len() + 1,
        passages::in_one_line("description: "@ + render::shown(d)),
        text::trimmed_end("description: "@ + render::shown(d)).len() > 0,
{
    let ls = issue_lines(st);
    assert(ls[0] == issue_head(st));
    assert(ls[1] == opt_line("description: "@, st.description)[0]);
    assert(passages::place_of(ls, 0) == 0);
    reveal_strlit("description: ");
    lemma_shown_in_one_line(d);
    lemma_in_one_line_add("description: "@, render::shown(d));
    assert(("description: "@ + render::shown(d))[0] == 'd');
    lemma_visible("description: "@ + render::shown(d), 0);
}

/// The description of an issue is shown on the second line of its page.
pub proof fn law_issue_page_description(st: event::IssueModel, d: Seq<char>)
    requires
        st.description == Some(d),
    ensures
        passages::line_shown(
            render::issue_page_text(st),
            issue_head(st).len() as int + 1,
            "description: "@ + render::shown(d),
        ),
{
    law_issue_page_is_its_lines(st);
    lemma_issue_description(st, d);
    passages::lemma_page_shows(issue_lines(st), 1);
}

/// The labels of an issue are shown on one line, behind the description.
pub proof fn law_issue_page_labels(st: event::IssueModel)
    requires
        st.labels.len() > 0,
    ensures
        passages::line_shown(
            render::issue_page_text(st),
            issue_head(st).len() as int + 1 + (match st.description {
                Some(d) => "description: "@.len() + render::shown(d).len() + 1,
                None => 0,
            }),
            "labels: "@ + render::shown(text::joined(st.labels, ", "@)),
        ),
{
    law_issue_page_is_its_lines(st);
    let ls = issue_lines(st);
    let l = "labels: "@ + render::shown(text::joined(st.labels, ", "@));
    reveal_strlit("labels: ");
    assert(l[0] == 'l');
    lemma_visible(l, 0);
    assert(ls[0] == issue_head(st));
    reveal_with_fuel(passages::place_of, 3);
    match st.description {
        Some(d) => {
            assert(ls[1] == "description: "@ + render::shown(d));
            assert(ls[2] == l);
            passages::lemma_page_shows(ls, 2);
        },
        None => {
            assert(ls[1] == l);
            passages::lemma_page_shows(ls, 1);
        },
    }
}

/// Every comment on an issue is shown on a line of its own, behind the line that announces
/// them, in the order in which they were made.
pub proof fn law_issue_page_comments(st: event::IssueModel)
    requires
        st.comments.len() > 0,
    ensures
        exists|first: int, at: Seq<int>|
            #![trigger passages::line_at(render::issue_page_text(st), first, "comments:"@), at.len()]
            {
                &&& passages::line_at(render::issue_page_text(st), first, "comments:"@)
                &&& at.len() == st.comments.len()
                &&& forall|i: int| 0 <= i < at.len() ==> first < #[trigger] at[i]
                &&& forall|i: int, j: int| 0 <= i < j < at.len() ==> #[trigger] at[i] < #[trigger] at[j]
                &&& forall|i: int|
                    0 <= i < at.len() ==> passages::line_shown(
                        render::issue_page_text(st),
                        #[trigger] at[i],
                        "  - "@ + render::shown(st.comments[i]),
                    )
            },
{
    law_issue_page_is_its_lines(st);
    let ls = issue_lines(st);
    let page = render::issue_page_text(st);
    let n = st.comments.len() as int;
    let c = ls.len() - n - 1;
    reveal_strlit("comments:");
    reveal_strlit("  - ");
    assert(ls[c] == "comments:"@);
    assert("comments:"@[0] == 'c' && "comments:"@.last() == ':');
    lemma_visible("comments:"@, 0);
    passages::lemma_page_shows(ls, c);
    let first = passages::place_of(ls, c);
    let at = Seq::new(n as nat, |i: int| passages::place_of(ls, c + 1 + i));
    assert forall|i: int| 0 <= i < n implies passages::line_shown(
        page,
        #[trigger] at[i],
        "  - "@ + render::shown(st.comments[i]),
    ) by {
        assert(ls[c + 1 + i] == "  - "@ + render::shown(st.comments[i]));
        assert(ls[c + 1 + i][2] == '-');
        lemma_visible(ls[c + 1 + i], 2);
        passages::lemma_page_shows(ls, c + 1 + i);
    }
    assert forall|i: int, j: int| 0 <= i < j < at.len() implies #[trigger] at[i] < #[trigger] at[j] by {
        lemma_places_rise(ls, c + 1 + i, c + 1 + j);
    }
    assert forall|i: int| 0 <= i < at.len() implies first < #[trigger] at[i] by {
        lemma_places_rise(ls, c, c + 1 + i);
    }
    assert(at.len() == n);
}

proof fn lemma_places_rise(ls: Seq<Seq<char>>, i: int, j: int)
    requires
        0 <= i < j,
    ensures
        passages::place_of(ls, i) < passages::place_of(ls, j),
    decreases j - i,
{
    if i + 1 < j {
        lemma_places_rise(ls, i, j - 1);
    }
}

/// Issues that differ in their numbers, in visible titles, or in whether they are open,
/// have different pages.
pub proof fn law_issue_pages_tell_heads_apart(a: event::IssueModel, b: event::IssueModel)
    requires
        issue_head(a) != issue_head(b),
    ensures
        render::issue_page_text(a) != render::issue_page_text(b),
{
    law_issue_page_is_its_lines(a);
    law_issue_page_is_its_lines(b);
    lemma_issue_head(a);
    lemma_issue_head(b);
    assert(issue_lines(a)[0] == issue_head(a));
    assert(issue_lines(b)[0] == issue_head(b));
    passages::lemma_pages_differ(issue_lines(a), issue_lines(b), 0);
}

/// Issues that differ in nothing but their visible titles have different first lines, and
/// so do issues of which one is open and the other closed.
pub proof fn law_issue_heads_differ(a: event::IssueModel, b: event::IssueModel)
    requires
        a.id == b.id,
    ensures
        a.open == b.open && a.title is Some && b.title is Some && render::is_plain(a.title.unwrap())
            && render::is_plain(b.title.unwrap()) && a.title != b.title ==> issue_head(a)
            != issue_head(b),
        a.title == b.title && a.open != b.open ==> issue_head(a) != issue_head(b),
{
    reveal_strlit("open");
    reveal_strlit("closed");
    if a.open == b.open && a.title is Some && b.title is Some && render::is_plain(a.title.unwrap())
        && render::is_plain(b.title.unwrap()) && issue_head(a) == issue_head(b) {
        let x = a.title.unwrap();
        let y = b.title.unwrap();
        render::law_shown_keeps_visible_text(x);
        render::law_shown_keeps_visible_text(y);
        let p = "#"@ + text::decimal(a.id as nat) + " "@;
        let q = " — "@ + (if a.open {
            "open"@
        } else {
            "closed"@
        });
        assert(issue_head(a) =~= p + x + q);
        assert(issue_head(b) =~= p + y + q);
        lemma_middle(p, x, y, q);
    }
    if a.title == b.title && a.open != b.open {
        assert("open"@.len() == 4 && "closed"@.len() == 6);
        assert(issue_head(a).len() != issue_head(b).len());
    }
}

proof fn lemma_middle(p: Seq<char>, x: Seq<char>, y: Seq<char>, q: Seq<char>)
    requires
        p + x + q == p + y + q,
    ensures
        x == y,
{
    let s = p + x + q;
    let t = p + y + q;
    assert(s.len() == t.len());
    assert(x.len() == y.len());
    assert(x =~= s.subrange(p.len() as int, (p.len() + x.len()) as int));
    assert(y =~= t.subrange(p.len() as int, (p.len() + x.len()) as int));
}

/// Issues that differ in nothing but their visible descriptions have different pages.
pub proof fn law_issue_pages_tell_descriptions_apart(
    a: event::IssueModel,
    b: event::IssueModel,
    x: Seq<char>,
    y: Seq<char>,
)
    requires
        b == (event::IssueModel { description: Some(y), ..a }),
        a.description == Some(x),
        is_visible(x),
        is_visible(y),
        x != y,
    ensures
        render::issue_page_text(a) != render::issue_page_text(b),
{
    law_issue_page_is_its_lines(a);
    law_issue_page_is_its_lines(b);
    lemma_issue_description(a, x);
    lemma_issue_description(b, y);
    render::law_shown_keeps_visible_text(x);
    render::law_shown_keeps_visible_text(y);
    assert(issue_lines(a)[0] == issue_head(a));
    assert(issue_lines(b)[0] == issue_head(a));
    let l = "description: "@ + x;
    let m = "description: "@ + y;
    assert(l.last() == x.last() && m.last() == y.last());
    if l == m {
        lemma_middle("description: "@, x, y, seq![]);
    }
    passages::lemma_pages_differ(issue_lines(a), issue_lines(b), 1);
}

/// Issues of which one has a visible description and the other none have different pages.
pub proof fn law_issue_page_tells_whether_described(a: event::IssueModel, x: Seq<char>)
    requires
        a.description == Some(x),
        is_visible(x),
    ensures
        render::issue_page_text(a) != render::issue_page_text(
            (event::IssueModel { description: None, ..a }),
        ),
{
    let b = event::IssueModel { description: None, ..a };
    let k = issue_head(a).len() as int + 1;
    law_issue_page_description(a, x);
    law_issue_page_is_its_lines(b);
    lemma_issue_description(a, x);
    render::law_shown_keeps_visible_text(x);
    let l = "description: "@ + x;
    assert(l.last() == x.last());
    assert(passages::line_at(render::issue_page_text(a), k, l));
    reveal_strlit("description: ");
    reveal_strlit("labels: ");
    reveal_strlit("comments:");
    reveal_with_fuel(passages::place_of, 3);
    let ls = issue_lines(b);
    assert(ls[0] == issue_head(a));
    let page = render::issue_page_text(b);
    if page == render::issue_page_text(a) {
        assert(l[0] == 'd');
        assert(page[k + 0] == l[0]);
        if a.labels.len() > 0 {
            law_issue_page_labels(b);
            let m = "labels: "@ + render::shown(text::joined(a.labels, ", "@));
            assert(m[0] == 'l');
            lemma_visible(m, 0);
            passages::lemma_trimmed_end(m);
            assert(text::trimmed_end(m)[0] == m.take(text::trimmed_end(m).len() as int)[0]);
            assert(page[k + 0] == text::trimmed_end(m)[0]);
        } else {
            // The line behind the first one is empty, or there is none.
            lemma_blank_line(ls, 1);
            assert(ls[1] =~= Seq::<char>::empty());
            assert(passages::place_of(ls, 1) == k);
        }
    }
}

/// At an empty line no text begins.
proof fn lemma_blank_line(ls: Seq<Seq<char>>, i: int)
    requires
        0 <= i < ls.len(),
        ls[i].len() == 0,
    ensures
        passages::page_of(ls).len() <= passages::place_of(ls, i) || passages::page_of(
            ls,
        )[passages::place_of(ls, i)] == '\n',
{
    passages::lemma_line_ends(ls, i);
    passages::lemma_trimmed_end(refs::joined_lines(ls));
    let page = passages::page_of(ls);
    let k = passages::place_of(ls, i);
    if k < page.len() {
        assert(refs::joined_lines(ls).take(page.len() as int)[k] == refs::joined_lines(ls)[k]);
    }
}

/// Issues that differ in nothing but their labels, as far as they can be seen, have
/// different pages.
pub proof fn law_issue_pages_tell_labels_apart(a: event::IssueModel, b: event::IssueModel)
    requires
        b == (event::IssueModel { labels: b.labels, ..a }),
        a.labels.len() > 0,
        b.labels.len() > 0,
        is_visible(text::joined(a.labels, ", "@)),
        is_visible(text::joined(b.labels, ", "@)),
        text::joined(a.labels, ", "@) != text::joined(b.labels, ", "@),
    ensures
        render::issue_page_text(a) != render::issue_page_text(b),
{
    law_issue_page_is_its_lines(a);
    law_issue_page_is_its_lines(b);
    let x = text::joined(a.labels, ", "@);
    let y = text::joined(b.labels, ", "@);
    render::law_shown_keeps_visible_text(x);
    render::law_shown_keeps_visible_text(y);
    lemma_shown_in_one_line(x);
    lemma_shown_in_one_line(y);
    reveal_strlit("labels: ");
    lemma_in_one_line_add("labels: "@, x);
    lemma_in_one_line_add("labels: "@, y);
    let l = "labels: "@ + x;
    let m = "labels: "@ + y;
    assert(l.last() == x.last() && m.last() == y.last());
    if l == m {
        lemma_middle("labels: "@, x, y, seq![]);
    }
    let i = if a.description is Some {
        2int
    } else {
        1int
    };
    assert(issue_lines(a)[i] == l);
    assert(issue_lines(b)[i] == m);
    assert forall|j: int| 0 <= j < i implies #[trigger] issue_lines(a)[j] == issue_lines(b)[j] by {
    }
    passages::lemma_pages_differ(issue_lines(a), issue_lines(b), i);
}

/// Issues that differ in nothing but one visible comment have different pages.
pub proof fn law_issue_pages_tell_comments_apart(a: event::IssueModel, i: int, y: Seq<char>)
    requires
        0 <= i < a.comments.len(),
        is_visible(a.comments[i]),
        is_visible(y),
        a.comments[i] != y,
    ensures
        render::issue_page_text(a) != render::issue_page_text(
            (event::IssueModel { comments: a.comments.update(i, y), ..a }),
        ),
{
    let b = event::IssueModel { comments: a.comments.update(i, y), ..a };
    let x = a.comments[i];
    law_issue_page_is_its_lines(a);
    law_issue_page_is_its_lines(b);
    render::law_shown_keeps_visible_text(x);
    render::law_shown_keeps_visible_text(y);
    lemma_shown_in_one_line(x);
    lemma_shown_in_one_line(y);
    reveal_strlit("  - ");
    lemma_in_one_line_add("  - "@, x);
    lemma_in_one_line_add("  - "@, y);
    let l = "  - "@ + x;
    let m = "  - "@ + y;
    assert(l.last() == x.last() && m.last() == y.last());
    if l == m {
        lemma_middle("  - "@, x, y, seq![]);
    }
    let k = issue_lines(a).len() - a.comments.len() + i;
    assert(issue_lines(a).len() == issue_lines(b).len());
    assert(issue_lines(a)[k] == l);
    assert(issue_lines(b)[k] == m);
    assert forall|j: int| 0 <= j < k implies #[trigger] issue_lines(a)[j] == issue_lines(b)[j] by {
        let c = issue_lines(a).len() - a.comments.len();
        if j >= c {
            assert(issue_lines(a)[j] == "  - "@ + render::shown(a.comments[j - c]));
            assert(issue_lines(b)[j] == "  - "@ + render::shown(b.comments[j - c]));
        }
    }
    passages::lemma_pages_differ(issue_lines(a), issue_lines(b), k);
}

// ---------------------------------------------------------------------------
// The list of issues

proof fn lemma_ends_visibly(a: Seq<char>, b: Seq<char>, after: Seq<char>)
    requires
        b.len() > 0,
        !text::is_white(b.last()),
        text::all_white(after),
    ensures
        text::trimmed_end(a + b + after) == a + b,
    decreases after.len(),
{
    let t = a + b + after;
    if after.len() == 0 {
        assert(t =~= a + b);
        assert((a + b).last() == b.last());
    } else {
        assert(t.last() == after.last());
        assert(t.drop_last() =~= a + b + after.drop_last());
        lemma_ends_visibly(a, b, after.drop_last());
    }
}

/// What the list says of one issue.
pub open spec fn issue_entry(st: event::IssueModel) -> Seq<char> {
    "#"@ + text::decimal(st.id as nat) + " "@ + render::shown(
        match st.title {
            Some(t) => t,
            None => "(untitled)"@,
        },
    ) + (if st.open {
        " (open)"@
    } else {
        " (closed)"@
    })
}

proof fn lemma_issue_row(st: event::IssueModel)
    ensures
        render::issue_row(st) == issue_entry(st) + seq!['\n'],
        issue_entry(st).len() > 0,
        issue_entry(st).last() == ')',
{
    reveal_strlit(" (");
    reveal_strlit(")\n");
    reveal_strlit("open");
    reveal_strlit("closed");
    reveal_strlit(" (open)");
    reveal_strlit(" (closed)");
    assert(" ("@ + "open"@ + ")\n"@ =~= " (open)"@ + seq!['\n']);
    assert(" ("@ + "closed"@ + ")\n"@ =~= " (closed)"@ + seq!['\n']);
    assert(render::issue_row(st) =~= issue_entry(st) + seq!['\n']);
    if st.open {
        assert(issue_entry(st).last() == " (open)"@.last());
    } else {
        assert(issue_entry(st).last() == " (closed)"@.last());
    }
}

proof fn lemma_issue_rows(sts: Seq<event::IssueModel>)
    requires
        sts.len() > 0,
    ensures
        render::issue_rows(sts) == render::issue_list_text(sts) + seq!['\n'],
{
    let st = sts.last();
    let a = render::issue_rows(sts.drop_last());
    lemma_issue_row(st);
    assert(render::issue_rows(sts) =~= a + issue_entry(st) + seq!['\n']);
    lemma_ends_visibly(a, issue_entry(st), seq!['\n']);
    assert(render::issue_rows(sts) =~= render::issue_list_text(sts) + seq!['\n']);
}

/// The list of issues has one line for each issue, in order: the number, the title, and
/// whether it is open. One more issue is one more line, and changes none of the others.
pub proof fn law_issue_list_has_a_line_for_each(
    sts: Seq<event::IssueModel>,
    st: event::IssueModel,
)
    ensures
        render::issue_list_text(seq![st]) == issue_entry(st),
        sts.len() > 0 ==> render::issue_list_text(sts.push(st)) == render::issue_list_text(sts)
            + seq!['\n'] + issue_entry(st),
        render::issue_list_text(seq![]) == "(no issues)"@,
        passages::in_one_line(issue_entry(st)),
{
    lemma_issue_row(st);
    let one = seq![st];
    assert(one.drop_last() =~= Seq::<event::IssueModel>::empty());
    assert(render::issue_rows(one.drop_last()) =~= seq![]);
    assert(render::issue_rows(one) =~= seq![] + issue_entry(st) + seq!['\n']);
    lemma_ends_visibly(seq![], issue_entry(st), seq!['\n']);
    assert(seq![] + issue_entry(st) =~= issue_entry(st));
    if sts.len() > 0 {
        lemma_issue_rows(sts);
        let more = sts.push(st);
        assert(more.drop_last() =~= sts);
        let a = render::issue_list_text(sts) + seq!['\n'];
        assert(render::issue_rows(more) =~= a + issue_entry(st) + seq!['\n']);
        lemma_ends_visibly(a, issue_entry(st), seq!['\n']);
    }
    render::law_issue_row_is_one_line(st);
    assert(render::issue_row(st).drop_last() =~= issue_entry(st));
    assert forall|i: int| 0 <= i < issue_entry(st).len() implies #[trigger] issue_entry(st)[i]
        != '\n' by {
        assert(!render::is_control(render::issue_row(st).drop_last()[i]));
    }
}

/// The issues that are listed are those whose chains hold events, in order.
pub proof fn law_listed_issues(
    chains: Seq<Seq<event::EventModel>>,
    chain: Seq<event::EventModel>,
)
    ensures
        render::listed_issues(seq![]) == Seq::<event::IssueModel>::empty(),
        chain.len() == 0 ==> render::listed_issues(chains.push(chain)) == render::listed_issues(
            chains,
        ),
        chain.len() > 0 ==> render::listed_issues(chains.push(chain)) == render::listed_issues(
            chains,
        ).push(event::folded(chain).issue),
        chain.len() == 0 ==> render::listed_prs(chains.push(chain)) == render::listed_prs(chains),
        chain.len() > 0 ==> render::listed_prs(chains.push(chain)) == render::listed_prs(
            chains,
        ).push(event::folded(chain).pr),
        render::listed_prs(seq![]) == Seq::<event::PrModel>::empty(),
{
    assert(chains.push(chain).drop_last() =~= chains);
}

// ---------------------------------------------------------------------------
// Pull requests

/// The first line of the page of a pull request.
pub open spec fn pr_head(st: event::PrModel) -> Seq<char> {
    "PR #"@ + text::decimal(st.id as nat) + " "@ + render::shown(
        match st.title {
            Some(t) => t,
            None => "(untitled)"@,
        },
    ) + (match st.effective_decision {
        Some(d) => " — decision: "@ + render::shown(d),
        None => " — no review yet"@,
    })
}

/// The line of the latest CI check, where there is one.
pub open spec fn check_line(st: event::PrModel) -> Seq<Seq<char>> {
    match (st.ci_status, st.ci_plan) {
        (None, _) => seq![],
        (Some(s), None) => seq!["ci: "@ + render::shown(s)],
        (Some(s), Some(p)) => seq!["ci: "@ + render::shown(s) + " ("@ + render::shown(p) + ")"@],
    }
}

/// The line of the two heads, where both are known.
pub open spec fn diff_line(st: event::PrModel) -> Seq<Seq<char>> {
    match (st.base_head, st.source_head) {
        (Some(b), Some(s)) => seq!["diff: "@ + render::shown(b) + "..."@ + render::shown(s)],
        _ => seq![],
    }
}

/// The lines of the page of a pull request.
pub open spec fn pr_lines(st: event::PrModel) -> Seq<Seq<char>> {
    seq![pr_head(st)] + opt_line("merged: "@, st.merge_result) + check_line(st) + opt_line(
        "base: "@,
        st.base_ref,
    ) + opt_line("source: "@, st.source_ref) + diff_line(st) + opt_line(
        "description: "@,
        st.description,
    ) + label_line(st.labels) + row_lines("comment: "@, st.comments)
}

proof fn lemma_pr_parts(st: event::PrModel)
    ensures
        refs::joined_lines(check_line(st)) == render::check_text(st.ci_status, st.ci_plan),
        refs::joined_lines(diff_line(st)) == render::heads_text(st.base_head, st.source_head),
        pr_head(st) == "PR #"@ + text::decimal(st.id as nat) + " "@ + render::shown(
            render::text_or(st.title, "(untitled)"@),
        ) + " — "@ + render::decision_text(st.effective_decision),
{
    lemma_line_feed();
    reveal_strlit(")");
    reveal_strlit(")\n");
    reveal_strlit(" — ");
    reveal_strlit("decision: ");
    reveal_strlit("no review yet");
    reveal_strlit(" — decision: ");
    reveal_strlit(" — no review yet");
    assert(")"@ + seq!['\n'] =~= ")\n"@);
    assert(" — "@ + "decision: "@ =~= " — decision: "@);
    assert(" — "@ + "no review yet"@ =~= " — no review yet"@);
    let none = Seq::<Seq<char>>::empty();
    assert(refs::joined_lines(none) =~= seq![]);
    match (st.ci_status, st.ci_plan) {
        (None, _) => {},
        (Some(s), None) => {
            lemma_joined_one("ci: "@ + render::shown(s));
        },
        (Some(s), Some(p)) => {
            let l = "ci: "@ + render::shown(s) + " ("@ + render::shown(p) + ")"@;
            lemma_joined_one(l);
            assert(l + seq!['\n'] =~= "ci: "@ + render::shown(s) + " ("@ + render::shown(p)
                + ")\n"@);
        },
    }
    match (st.base_head, st.source_head) {
        (Some(b), Some(s)) => {
            lemma_joined_one("diff: "@ + render::shown(b) + "..."@ + render::shown(s));
        },
        _ => {},
    }
    assert(pr_head(st) =~= "PR #"@ + text::decimal(st.id as nat) + " "@ + render::shown(
        render::text_or(st.title, "(untitled)"@),
    ) + " — "@ + render::decision_text(st.effective_decision));
}

/// The page of a pull request is its lines.
pub proof fn law_pr_page_is_its_lines(st: event::PrModel)
    ensures
        render::pr_page_text(st) == passages::page_of(pr_lines(st)),
{
    lemma_line_feed();
    lemma_pr_parts(st);
    let l1 = seq![pr_head(st)];
    let l2 = opt_line("merged: "@, st.merge_result);
    let l3 = check_line(st);
    let l4 = opt_line("base: "@, st.base_ref);
    let l5 = opt_line("source: "@, st.source_ref);
    let l6 = diff_line(st);
    let l7 = opt_line("description: "@, st.description);
    let l8 = label_line(st.labels);
    let l9 = row_lines("comment: "@, st.comments);
    lemma_joined_one(pr_head(st));
    lemma_opt_line("merged: "@, st.merge_result);
    lemma_opt_line("base: "@, st.base_ref);
    lemma_opt_line("source: "@, st.source_ref);
    lemma_opt_line("description: "@, st.description);
    lemma_label_line(st.labels);
    lemma_row_lines("comment: "@, st.comments);
    lemma_joined_add(l1, l2);
    lemma_joined_add(l1 + l2, l3);
    lemma_joined_add(l1 + l2 + l3, l4);
    lemma_joined_add(l1 + l2 + l3 + l4, l5);
    lemma_joined_add(l1 + l2 + l3 + l4 + l5, l6);
    lemma_joined_add(l1 + l2 + l3 + l4 + l5 + l6, l7);
    lemma_joined_add(l1 + l2 + l3 + l4 + l5 + l6 + l7, l8);
    lemma_joined_add(l1 + l2 + l3 + l4 + l5 + l6 + l7 + l8, l9);
}

proof fn lemma_pr_line_shown(st: event::PrModel, i: int, l: Seq<char>)
    requires
        0 <= i < pr_lines(st).len(),
        pr_lines(st)[i] == l,
        l.len() > 0,
        !text::is_white(l[0]),
    ensures
        passages::line_shown(
            render::pr_page_text(st),
            passages::place_of(pr_lines(st), i),
            l,
        ),
{
    law_pr_page_is_its_lines(st);
    lemma_visible(l, 0);
    passages::lemma_page_shows(pr_lines(st), i);
}

/// Is the text shown on the page, on a line of its own behind the first?
pub open spec fn pr_shows(st: event::PrModel, l: Seq<char>) -> bool {
    exists|k: int| 0 < k && #[trigger] passages::line_shown(render::pr_page_text(st), k, l)
}

proof fn lemma_pr_shows(st: event::PrModel, i: int, l: Seq<char>)
    requires
        1 <= i < pr_lines(st).len(),
        pr_lines(st)[i] == l,
        l.len() > 0,
        !text::is_white(l[0]),
    ensures
        pr_shows(st, l),
{
    lemma_pr_line_shown(st, i, l);
    lemma_places_rise(pr_lines(st), 0, i);
}

/// The page of a pull request begins with its number, its title and what the last review
/// decided.
pub proof fn law_pr_page_head(st: event::PrModel)
    ensures
        passages::line_shown(render::pr_page_text(st), 0, pr_head(st)),
{
    reveal_strlit("PR #");
    assert(pr_head(st)[0] == 'P');
    lemma_pr_line_shown(st, 0, pr_head(st));
}

proof fn lemma_pr_part(
    st: event::PrModel,
    before: Seq<Seq<char>>,
    l: Seq<char>,
    after: Seq<Seq<char>>,
)
    requires
        pr_lines(st) == before + seq![l] + after,
        before.len() > 0,
        l.len() > 0,
        !text::is_white(l[0]),
    ensures
        pr_shows(st, l),
{
    assert((before + seq![l] + after)[before.len() as int] == l);
    lemma_pr_shows(st, before.len() as int, l);
}

/// The page of a merged pull request shows the commit that it was merged with.
pub proof fn law_pr_page_shows_merge(st: event::PrModel, result: Seq<char>)
    requires
        st.merge_result == Some(result),
    ensures
        pr_shows(st, "merged: "@ + render::shown(result)),
{
    reveal_strlit("merged: ");
    let before = seq![pr_head(st)];
    let l = "merged: "@ + render::shown(result);
    let after = check_line(st) + opt_line("base: "@, st.base_ref) + opt_line("source: "@, st.source_ref) + diff_line(st) + opt_line("description: "@, st.description) + label_line(st.labels) + row_lines("comment: "@, st.comments);
    assert(l[0] == 'm');
    assert(opt_line("merged: "@, st.merge_result) =~= seq![l]);
    assert(pr_lines(st) =~= before + seq![l] + after);
    lemma_pr_part(st, before, l, after);
}

/// The page of a pull request shows the latest CI check, with the plan that it ran.
pub proof fn law_pr_page_shows_check(st: event::PrModel, status: Seq<char>, plan: Seq<char>)
    requires
        st.ci_status == Some(status),
        st.ci_plan == Some(plan),
    ensures
        pr_shows(st, "ci: "@ + render::shown(status) + " ("@ + render::shown(plan) + ")"@),
{
    reveal_strlit("ci: ");
    let before = seq![pr_head(st)] + opt_line("merged: "@, st.merge_result);
    let l = "ci: "@ + render::shown(status) + " ("@ + render::shown(plan) + ")"@;
    let after = opt_line("base: "@, st.base_ref) + opt_line("source: "@, st.source_ref) + diff_line(st) + opt_line("description: "@, st.description) + label_line(st.labels) + row_lines("comment: "@, st.comments);
    assert(l[0] == 'c');
    assert(check_line(st) =~= seq![l]);
    assert(pr_lines(st) =~= before + seq![l] + after);
    lemma_pr_part(st, before, l, after);
}

/// The page of a pull request shows a CI check that ran no plan.
pub proof fn law_pr_page_shows_check_without_plan(st: event::PrModel, status: Seq<char>)
    requires
        st.ci_status == Some(status),
        st.ci_plan is None,
    ensures
        pr_shows(st, "ci: "@ + render::shown(status)),
{
    reveal_strlit("ci: ");
    let before = seq![pr_head(st)] + opt_line("merged: "@, st.merge_result);
    let l = "ci: "@ + render::shown(status);
    let after = opt_line("base: "@, st.base_ref) + opt_line("source: "@, st.source_ref) + diff_line(st) + opt_line("description: "@, st.description) + label_line(st.labels) + row_lines("comment: "@, st.comments);
    assert(l[0] == 'c');
    assert(check_line(st) =~= seq![l]);
    assert(pr_lines(st) =~= before + seq![l] + after);
    lemma_pr_part(st, before, l, after);
}

/// The page of a pull request shows its base branch.
pub proof fn law_pr_page_shows_base(st: event::PrModel, base: Seq<char>)
    requires
        st.base_ref == Some(base),
    ensures
        pr_shows(st, "base: "@ + render::shown(base)),
{
    reveal_strlit("base: ");
    let before = seq![pr_head(st)] + opt_line("merged: "@, st.merge_result) + check_line(st);
    let l = "base: "@ + render::shown(base);
    let after = opt_line("source: "@, st.source_ref) + diff_line(st) + opt_line("description: "@, st.description) + label_line(st.labels) + row_lines("comment: "@, st.comments);
    assert(l[0] == 'b');
    assert(opt_line("base: "@, st.base_ref) =~= seq![l]);
    assert(pr_lines(st) =~= before + seq![l] + after);
    lemma_pr_part(st, before, l, after);
}

/// The page of a pull request shows its source branch.
pub proof fn law_pr_page_shows_source(st: event::PrModel, source: Seq<char>)
    requires
        st.source_ref == Some(source),
    ensures
        pr_shows(st, "source: "@ + render::shown(source)),
{
    reveal_strlit("source: ");
    let before = seq![pr_head(st)] + opt_line("merged: "@, st.merge_result) + check_line(st) + opt_line("base: "@, st.base_ref);
    let l = "source: "@ + render::shown(source);
    let after = diff_line(st) + opt_line("description: "@, st.description) + label_line(st.labels) + row_lines("comment: "@, st.comments);
    assert(l[0] == 's');
    assert(opt_line("source: "@, st.source_ref) =~= seq![l]);
    assert(pr_lines(st) =~= before + seq![l] + after);
    lemma_pr_part(st, before, l, after);
}

/// The page of a pull request shows the heads that it leads from and to.
pub proof fn law_pr_page_shows_heads(st: event::PrModel, base: Seq<char>, source: Seq<char>)
    requires
        st.base_head == Some(base),
        st.source_head == Some(source),
    ensures
        pr_shows(st, "diff: "@ + render::shown(base) + "..."@ + render::shown(source)),
{
    reveal_strlit("diff: ");
    let before = seq![pr_head(st)] + opt_line("merged: "@, st.merge_result) + check_line(st) + opt_line("base: "@, st.base_ref) + opt_line("source: "@, st.source_ref);
    let l = "diff: "@ + render::shown(base) + "..."@ + render::shown(source);
    let after = opt_line("description: "@, st.description) + label_line(st.labels) + row_lines("comment: "@, st.comments);
    assert(l[0] == 'd');
    assert(diff_line(st) =~= seq![l]);
    assert(pr_lines(st) =~= before + seq![l] + after);
    lemma_pr_part(st, before, l, after);
}

/// The page of a pull request shows its description.
pub proof fn law_pr_page_shows_description(st: event::PrModel, d: Seq<char>)
    requires
        st.description == Some(d),
    ensures
        pr_shows(st, "description: "@ + render::shown(d)),
{
    reveal_strlit("description: ");
    let before = seq![pr_head(st)] + opt_line("merged: "@, st.merge_result) + check_line(st) + opt_line("base: "@, st.base_ref) + opt_line("source: "@, st.source_ref) + diff_line(st);
    let l = "description: "@ + render::shown(d);
    let after = label_line(st.labels) + row_lines("comment: "@, st.comments);
    assert(l[0] == 'd');
    assert(opt_line("description: "@, st.description) =~= seq![l]);
    assert(pr_lines(st) =~= before + seq![l] + after);
    lemma_pr_part(st, before, l, after);
}

/// The page of a pull request shows its labels.
pub proof fn law_pr_page_shows_labels(st: event::PrModel)
    requires
        st.labels.len() > 0,
    ensures
        pr_shows(st, "labels: "@ + render::shown(text::joined(st.labels, ", "@))),
{
    reveal_strlit("labels: ");
    let before = seq![pr_head(st)] + opt_line("merged: "@, st.merge_result) + check_line(st) + opt_line("base: "@, st.base_ref) + opt_line("source: "@, st.source_ref) + diff_line(st) + opt_line("description: "@, st.description);
    let l = "labels: "@ + render::shown(text::joined(st.labels, ", "@));
    let after = row_lines("comment: "@, st.comments);
    assert(l[0] == 'l');
    assert(label_line(st.labels) =~= seq![l]);
    assert(pr_lines(st) =~= before + seq![l] + after);
    lemma_pr_part(st, before, l, after);
}

/// Every comment on a pull request is shown on a line of its own, in the order in which
/// they were made.
pub proof fn law_pr_page_comments(st: event::PrModel)
    ensures
        exists|at: Seq<int>|
            #![trigger at.len()]
            {
                &&& at.len() == st.comments.len()
                &&& forall|i: int| 0 <= i < at.len() ==> 0 < #[trigger] at[i]
                &&& forall|i: int, j: int| 0 <= i < j < at.len() ==> #[trigger] at[i] < #[trigger] at[j]
                &&& forall|i: int|
                    0 <= i < at.len() ==> passages::line_shown(
                        render::pr_page_text(st),
                        #[trigger] at[i],
                        "comment: "@ + render::shown(st.comments[i]),
                    )
            },
{
    let ls = pr_lines(st);
    let n = st.comments.len() as int;
    let c = ls.len() - n;
    reveal_strlit("comment: ");
    let at = Seq::new(n as nat, |i: int| passages::place_of(ls, c + i));
    assert forall|i: int| 0 <= i < n implies passages::line_shown(
        render::pr_page_text(st),
        #[trigger] at[i],
        "comment: "@ + render::shown(st.comments[i]),
    ) by {
        let l = "comment: "@ + render::shown(st.comments[i]);
        assert(ls[c + i] == row_lines("comment: "@, st.comments)[i]);
        assert(l[0] == 'c');
        lemma_pr_line_shown(st, c + i, l);
    }
    assert forall|i: int, j: int| 0 <= i < j < at.len() implies #[trigger] at[i] < #[trigger] at[j] by {
        lemma_places_rise(ls, c + i, c + j);
    }
    assert forall|i: int| 0 <= i < at.len() implies 0 < #[trigger] at[i] by {
        lemma_places_rise(ls, 0, c + i);
    }
    assert(at.len() == n);
}

/// What the list says of one pull request.
pub open spec fn pr_entry(st: event::PrModel) -> Seq<char> {
    "PR #"@ + text::decimal(st.id as nat) + " "@ + render::shown(
        match st.title {
            Some(t) => t,
            None => "(untitled)"@,
        },
    ) + " ("@ + render::shown(
        match st.effective_decision {
            Some(d) => d,
            None => "no review"@,
        },
    ) + ")"@
}

proof fn lemma_pr_row(st: event::PrModel)
    ensures
        render::pr_row(st) == pr_entry(st) + seq!['\n'],
        pr_entry(st).len() > 0,
        pr_entry(st).last() == ')',
{
    reveal_strlit(")");
    reveal_strlit(")\n");
    assert(")"@ + seq!['\n'] =~= ")\n"@);
    assert(render::pr_row(st) =~= pr_entry(st) + seq!['\n']);
    assert(pr_entry(st).last() == ")"@.last());
}

/// The list of pull requests has one line for each of them, in order: the number, the
/// title, and what the last review decided. One more pull request is one more line, and
/// changes none of the others.
pub proof fn law_pr_list_has_a_line_for_each(sts: Seq<event::PrModel>, st: event::PrModel)
    ensures
        render::pr_list_text(seq![st]) == pr_entry(st),
        sts.len() > 0 ==> render::pr_list_text(sts.push(st)) == render::pr_list_text(sts)
            + seq!['\n'] + pr_entry(st),
        render::pr_list_text(seq![]) == "(no pull requests)"@,
        passages::in_one_line(pr_entry(st)),
{
    lemma_pr_row(st);
    let one = seq![st];
    assert(one.drop_last() =~= Seq::<event::PrModel>::empty());
    assert(render::pr_rows(one.drop_last()) =~= seq![]);
    assert(render::pr_rows(one) =~= seq![] + pr_entry(st) + seq!['\n']);
    lemma_ends_visibly(seq![], pr_entry(st), seq!['\n']);
    assert(seq![] + pr_entry(st) =~= pr_entry(st));
    if sts.len() > 0 {
        let last = sts.last();
        let b = render::pr_rows(sts.drop_last());
        lemma_pr_row(last);
        assert(render::pr_rows(sts) =~= b + pr_entry(last) + seq!['\n']);
        lemma_ends_visibly(b, pr_entry(last), seq!['\n']);
        let more = sts.push(st);
        assert(more.drop_last() =~= sts);
        let a = render::pr_list_text(sts) + seq!['\n'];
        assert(render::pr_rows(more) =~= a + pr_entry(st) + seq!['\n']);
        lemma_ends_visibly(a, pr_entry(st), seq!['\n']);
    }
    render::law_pr_row_is_one_line(st);
    assert(render::pr_row(st).drop_last() =~= pr_entry(st));
    assert forall|i: int| 0 <= i < pr_entry(st).len() implies #[trigger] pr_entry(st)[i] != '\n' by {
        assert(!render::is_control(render::pr_row(st).drop_last()[i]));
    }
}

} // verus!
