//! What the user sees: issues and pull requests as text for a terminal.

use crate::event;
use crate::event::{fold, Event, IssueState, PrState};
use crate::json;
use crate::messages;
use crate::messages::Entity;
use crate::text;
use vstd::prelude::*;

verus! {

// ---------------------------------------------------------------------------
// Stored text on a terminal

/// Can a terminal take `c` as a command: is it a C0 or C1 control, or DEL?
pub open spec fn is_control(c: char) -> bool {
    (c as int) < 0x20 || 0x7f <= c as int <= 0x9f
}

/// How the character `c` of a stored text is shown.
pub open spec fn shown_char(c: char) -> Seq<char> {
    if is_control(c) {
        seq!['\\', 'x', json::hex_char(c as int / 16), json::hex_char(c as int % 16)]
    } else {
        seq![c]
    }
}

/// How a stored text is shown.
pub open spec fn shown(s: Seq<char>) -> Seq<char>
    decreases s.len(),
{
    if s.len() == 0 {
        seq![]
    } else {
        shown(s.drop_last()) + shown_char(s.last())
    }
}

proof fn lemma_shown_char(c: char)
    ensures
        forall|k: int| 0 <= k < shown_char(c).len() ==> !is_control(#[trigger] shown_char(c)[k]),
{
    let b = shown_char(c);
    if is_control(c) {
        let h = json::hex_char(c as int / 16);
        let l = json::hex_char(c as int % 16);
        assert(!is_control(h) && !is_control(l));
        assert(b[0] == '\\' && b[1] == 'x' && b[2] == h && b[3] == l);
    }
}

/// No control character of a stored text reaches the terminal.
pub proof fn law_shown_has_no_controls(s: Seq<char>)
    ensures
        forall|i: int| 0 <= i < shown(s).len() ==> !is_control(#[trigger] shown(s)[i]),
    decreases s.len(),
{
    if s.len() > 0 {
        law_shown_has_no_controls(s.drop_last());
        let a = shown(s.drop_last());
        let b = shown_char(s.last());
        lemma_shown_char(s.last());
        assert forall|i: int| 0 <= i < shown(s).len() implies !is_control(#[trigger] shown(s)[i]) by {
            if i < a.len() {
                assert(shown(s)[i] == a[i]);
            } else {
                assert(shown(s)[i] == b[i - a.len()]);
            }
        }
    }
}

/// Text without control characters is shown as it is.
pub proof fn law_shown_keeps_visible_text(s: Seq<char>)
    requires
        forall|i: int| 0 <= i < s.len() ==> !is_control(#[trigger] s[i]),
    ensures
        shown(s) == s,
    decreases s.len(),
{
    if s.len() > 0 {
        let t = s.drop_last();
        assert forall|i: int| 0 <= i < t.len() implies !is_control(#[trigger] t[i]) by {
            assert(t[i] == s[i]);
        }
        law_shown_keeps_visible_text(t);
        assert(!is_control(s[s.len() - 1]));
        assert(t + seq![s.last()] =~= s);
    } else {
        assert(s =~= seq![]);
    }
}

/// Appends `c` as it is shown.
fn push_shown(out: &mut String, c: char)
    ensures
        final(out)@ == old(out)@ + shown_char(c),
{
    let ghost before = out@;
    let n: u32 = c as u32;
    if n < 0x20 || (0x7f <= n && n <= 0x9f) {
        let b: u8 = n as u8;
        out.push('\\');
        out.push('x');
        out.push(json::hex_digit(b / 16));
        out.push(json::hex_digit(b % 16));
    } else {
        out.push(c);
    }
    assert(out@ =~= before + shown_char(c));
}

/// A stored text, safe for a terminal: every control character is written as `\xNN`,
/// line breaks and tabs too, and everything else is kept.
pub fn sanitize_terminal(s: &str) -> (r: String)
    ensures
        r@ == shown(s@),
{
    let v = text::chars_of(s);
    let mut out = String::new();
    let mut i: usize = 0;
    assert(v@.take(0) =~= seq![]);
    assert(out@ =~= shown(v@.take(0)));
    while i < v.len()
        invariant
            i <= v@.len(),
            out@ == shown(v@.take(i as int)),
        decreases v@.len() - i,
    {
        push_shown(&mut out, v[i]);
        assert(v@.take(i + 1).drop_last() =~= v@.take(i as int));
        assert(v@.take(i + 1).last() == v@[i as int]);
        i = i + 1;
    }
    assert(v@.take(i as int) =~= v@);
    out
}

/// Appends a stored text as it is shown.
fn push_stored(out: &mut String, s: &str)
    ensures
        final(out)@ == old(out)@ + shown(s@),
{
    out.append(sanitize_terminal(s).as_str());
}

/// The text, or else another.
pub open spec fn text_or(o: Option<Seq<char>>, other: Seq<char>) -> Seq<char> {
    match o {
        Some(s) => s,
        None => other,
    }
}

/// Appends a stored text as it is shown, or else another.
fn push_stored_or(out: &mut String, o: &Option<String>, other: &str)
    ensures
        final(out)@ == old(out)@ + shown(text_or(event::opt_text(*o), other@)),
{
    match o {
        Some(s) => push_stored(out, s.as_str()),
        None => push_stored(out, other),
    }
}

/// The line of an optional field.
pub open spec fn field_text(label: Seq<char>, o: Option<Seq<char>>) -> Seq<char> {
    match o {
        Some(s) => label + shown(s) + "\n"@,
        None => seq![],
    }
}

/// Appends the line of an optional field.
fn push_field(out: &mut String, label: &str, o: &Option<String>)
    ensures
        final(out)@ == old(out)@ + field_text(label@, event::opt_text(*o)),
{
    let ghost before = out@;
    match o {
        Some(s) => {
            out.append(label);
            push_stored(out, s.as_str());
            out.append("\n");
        },
        None => {},
    }
    assert(out@ =~= before + field_text(label@, event::opt_text(*o)));
}

/// The line of the labels; none without labels.
pub open spec fn labels_text(labels: Seq<Seq<char>>) -> Seq<char> {
    if labels.len() == 0 {
        seq![]
    } else {
        "labels: "@ + shown(text::joined(labels, ", "@)) + "\n"@
    }
}

/// Appends the line of the labels.
fn push_labels(out: &mut String, labels: &Vec<String>)
    ensures
        final(out)@ == old(out)@ + labels_text(event::texts(labels@)),
{
    let ghost before = out@;
    if labels.len() > 0 {
        assert(event::texts(labels@).skip(0) =~= event::texts(labels@));
        let all = text::join_from(labels.as_slice(), 0, ", ");
        out.append("labels: ");
        push_stored(out, all.as_str());
        out.append("\n");
    }
    assert(out@ =~= before + labels_text(event::texts(labels@)));
}

/// A line for each of the texts.
pub open spec fn rows_text(before: Seq<char>, rows: Seq<Seq<char>>) -> Seq<char>
    decreases rows.len(),
{
    if rows.len() == 0 {
        seq![]
    } else {
        rows_text(before, rows.drop_last()) + before + shown(rows.last()) + "\n"@
    }
}

/// Appends a line for each of the texts.
fn push_rows(out: &mut String, before: &str, rows: &Vec<String>)
    ensures
        final(out)@ == old(out)@ + rows_text(before@, event::texts(rows@)),
{
    let ghost start = out@;
    let ghost all = event::texts(rows@);
    let mut i: usize = 0;
    assert(all.take(0) =~= seq![]);
    assert(out@ =~= start + rows_text(before@, all.take(0)));
    while i < rows.len()
        invariant
            i <= rows@.len(),
            all == event::texts(rows@),
            out@ == start + rows_text(before@, all.take(i as int)),
        decreases rows@.len() - i,
    {
        out.append(before);
        push_stored(out, rows[i].as_str());
        out.append("\n");
        proof {
            assert(all.take(i + 1).drop_last() =~= all.take(i as int));
            assert(all.take(i + 1).last() == rows@[i as int]@);
            assert(out@ =~= start + rows_text(before@, all.take(i + 1)));
        }
        i = i + 1;
    }
    assert(all.take(i as int) =~= all);
}

// ---------------------------------------------------------------------------
// Issues

/// `open` or `closed`.
pub open spec fn open_text(open: bool) -> Seq<char> {
    if open {
        "open"@
    } else {
        "closed"@
    }
}

/// `open` or `closed`.
fn open_str(open: bool) -> (r: &'static str)
    ensures
        r@ == open_text(open),
{
    if open {
        "open"
    } else {
        "closed"
    }
}

/// The line of an issue in the list of issues.
pub open spec fn issue_row(st: event::IssueModel) -> Seq<char> {
    "#"@ + text::decimal(st.id as nat) + " "@ + shown(text_or(st.title, "(untitled)"@)) + " ("@
        + open_text(st.open) + ")\n"@
}

/// The lines of the issues.
pub open spec fn issue_rows(sts: Seq<event::IssueModel>) -> Seq<char>
    decreases sts.len(),
{
    if sts.len() == 0 {
        seq![]
    } else {
        issue_rows(sts.drop_last()) + issue_row(sts.last())
    }
}

/// The list of issues.
pub open spec fn issue_list_text(sts: Seq<event::IssueModel>) -> Seq<char> {
    if sts.len() == 0 {
        "(no issues)"@
    } else {
        text::trimmed_end(issue_rows(sts))
    }
}

/// The states of the issues as mathematics sees them.
pub open spec fn issue_models(sts: Seq<IssueState>) -> Seq<event::IssueModel> {
    sts.map_values(|s: IssueState| s@)
}

/// The list of issues.
pub fn issue_list(sts: &[IssueState]) -> (r: String)
    ensures
        r@ == issue_list_text(issue_models(sts@)),
{
    if sts.len() == 0 {
        return "(no issues)".to_owned();
    }
    let ghost all = issue_models(sts@);
    let mut out = String::new();
    let mut i: usize = 0;
    assert(all.take(0) =~= seq![]);
    assert(out@ =~= issue_rows(all.take(0)));
    while i < sts.len()
        invariant
            i <= sts@.len(),
            all == issue_models(sts@),
            out@ == issue_rows(all.take(i as int)),
        decreases sts@.len() - i,
    {
        let ghost before = out@;
        let st = &sts[i];
        out.append("#");
        out.append(text::decimal_string(st.id).as_str());
        out.append(" ");
        push_stored_or(&mut out, &st.title, "(untitled)");
        out.append(" (");
        out.append(open_str(st.open));
        out.append(")\n");
        proof {
            assert(all.take(i + 1).drop_last() =~= all.take(i as int));
            assert(all.take(i + 1).last() == st@);
            assert(out@ =~= before + issue_row(st@));
        }
        i = i + 1;
    }
    assert(all.take(i as int) =~= all);
    text::trim_end_string(out.as_str())
}

/// The chains as mathematics sees them.
pub open spec fn chain_models(chains: Seq<Vec<Event>>) -> Seq<Seq<event::EventModel>> {
    chains.map_values(|c: Vec<Event>| event::event_models(c@))
}

/// The states of the issues whose chains hold events, in their order; a chain without
/// events is passed over.
pub open spec fn listed_issues(chains: Seq<Seq<event::EventModel>>) -> Seq<event::IssueModel>
    decreases chains.len(),
{
    if chains.len() == 0 {
        seq![]
    } else {
        let before = listed_issues(chains.drop_last());
        if chains.last().len() == 0 {
            before
        } else {
            before.push(event::folded(chains.last()).issue)
        }
    }
}

/// The list of the issues that the chains amount to.
pub fn list_issues(chains: &[Vec<Event>]) -> (r: String)
    ensures
        r@ == issue_list_text(listed_issues(chain_models(chains@))),
{
    let ghost all = chain_models(chains@);
    let mut sts: Vec<IssueState> = Vec::new();
    let mut i: usize = 0;
    assert(all.take(0) =~= seq![]);
    assert(issue_models(sts@) =~= seq![]);
    while i < chains.len()
        invariant
            i <= chains@.len(),
            all == chain_models(chains@),
            issue_models(sts@) == listed_issues(all.take(i as int)),
        decreases chains@.len() - i,
    {
        let ghost before = issue_models(sts@);
        let chain = &chains[i];
        proof {
            assert(all.take(i + 1).drop_last() =~= all.take(i as int));
            assert(all.take(i + 1).last() == event::event_models(chain@));
        }
        if chain.len() > 0 {
            let st = fold(chain.as_slice()).issue;
            let ghost shown = st@;
            sts.push(st);
            assert(issue_models(sts@) =~= before.push(shown));
        }
        i = i + 1;
    }
    assert(all.take(i as int) =~= all);
    issue_list(sts.as_slice())
}

/// The comments of an issue; nothing without comments.
pub open spec fn issue_comments_text(comments: Seq<Seq<char>>) -> Seq<char> {
    if comments.len() == 0 {
        seq![]
    } else {
        "comments:\n"@ + rows_text("  - "@, comments)
    }
}

/// The page of an issue.
pub open spec fn issue_page_text(st: event::IssueModel) -> Seq<char> {
    text::trimmed_end(
        "#"@ + text::decimal(st.id as nat) + " "@ + shown(text_or(st.title, "(untitled)"@)) + " — "@
            + open_text(st.open) + "\n"@ + field_text("description: "@, st.description)
            + labels_text(st.labels) + "\n"@ + issue_comments_text(st.comments),
    )
}

/// The page of an issue.
pub fn issue_page(st: &IssueState) -> (r: String)
    ensures
        r@ == issue_page_text(st@),
{
    let mut out = "#".to_owned();
    out.append(text::decimal_string(st.id).as_str());
    out.append(" ");
    push_stored_or(&mut out, &st.title, "(untitled)");
    out.append(" — ");
    out.append(open_str(st.open));
    out.append("\n");
    push_field(&mut out, "description: ", &st.description);
    push_labels(&mut out, &st.labels);
    out.append("\n");
    let ghost before = out@;
    if st.comments.len() > 0 {
        out.append("comments:\n");
        push_rows(&mut out, "  - ", &st.comments);
    }
    assert(out@ =~= before + issue_comments_text(event::texts(st.comments@)));
    text::trim_end_string(out.as_str())
}

// ---------------------------------------------------------------------------
// Pull requests

/// The line of a pull request in the list of pull requests.
pub open spec fn pr_row(st: event::PrModel) -> Seq<char> {
    "PR #"@ + text::decimal(st.id as nat) + " "@ + shown(text_or(st.title, "(untitled)"@)) + " ("@
        + shown(text_or(st.effective_decision, "no review"@)) + ")\n"@
}

/// The lines of the pull requests.
pub open spec fn pr_rows(sts: Seq<event::PrModel>) -> Seq<char>
    decreases sts.len(),
{
    if sts.len() == 0 {
        seq![]
    } else {
        pr_rows(sts.drop_last()) + pr_row(sts.last())
    }
}

/// The list of pull requests.
pub open spec fn pr_list_text(sts: Seq<event::PrModel>) -> Seq<char> {
    if sts.len() == 0 {
        "(no pull requests)"@
    } else {
        text::trimmed_end(pr_rows(sts))
    }
}

/// The states of the pull requests as mathematics sees them.
pub open spec fn pr_models(sts: Seq<PrState>) -> Seq<event::PrModel> {
    sts.map_values(|s: PrState| s@)
}

/// The list of pull requests.
pub fn pr_list(sts: &[PrState]) -> (r: String)
    ensures
        r@ == pr_list_text(pr_models(sts@)),
{
    if sts.len() == 0 {
        return "(no pull requests)".to_owned();
    }
    let ghost all = pr_models(sts@);
    let mut out = String::new();
    let mut i: usize = 0;
    assert(all.take(0) =~= seq![]);
    assert(out@ =~= pr_rows(all.take(0)));
    while i < sts.len()
        invariant
            i <= sts@.len(),
            all == pr_models(sts@),
            out@ == pr_rows(all.take(i as int)),
        decreases sts@.len() - i,
    {
        let ghost before = out@;
        let st = &sts[i];
        out.append("PR #");
        out.append(text::decimal_string(st.id).as_str());
        out.append(" ");
        push_stored_or(&mut out, &st.title, "(untitled)");
        out.append(" (");
        push_stored_or(&mut out, &st.effective_decision, "no review");
        out.append(")\n");
        proof {
            assert(all.take(i + 1).drop_last() =~= all.take(i as int));
            assert(all.take(i + 1).last() == st@);
            assert(out@ =~= before + pr_row(st@));
        }
        i = i + 1;
    }
    assert(all.take(i as int) =~= all);
    text::trim_end_string(out.as_str())
}

/// The states of the pull requests whose chains hold events, in their order; a chain without
/// events is passed over.
pub open spec fn listed_prs(chains: Seq<Seq<event::EventModel>>) -> Seq<event::PrModel>
    decreases chains.len(),
{
    if chains.len() == 0 {
        seq![]
    } else {
        let before = listed_prs(chains.drop_last());
        if chains.last().len() == 0 {
            before
        } else {
            before.push(event::folded(chains.last()).pr)
        }
    }
}

/// The list of the pull requests that the chains amount to.
pub fn list_prs(chains: &[Vec<Event>]) -> (r: String)
    ensures
        r@ == pr_list_text(listed_prs(chain_models(chains@))),
{
    let ghost all = chain_models(chains@);
    let mut sts: Vec<PrState> = Vec::new();
    let mut i: usize = 0;
    assert(all.take(0) =~= seq![]);
    assert(pr_models(sts@) =~= seq![]);
    while i < chains.len()
        invariant
            i <= chains@.len(),
            all == chain_models(chains@),
            pr_models(sts@) == listed_prs(all.take(i as int)),
        decreases chains@.len() - i,
    {
        let ghost before = pr_models(sts@);
        let chain = &chains[i];
        proof {
            assert(all.take(i + 1).drop_last() =~= all.take(i as int));
            assert(all.take(i + 1).last() == event::event_models(chain@));
        }
        if chain.len() > 0 {
            let st = fold(chain.as_slice()).pr;
            let ghost shown = st@;
            sts.push(st);
            assert(pr_models(sts@) =~= before.push(shown));
        }
        i = i + 1;
    }
    assert(all.take(i as int) =~= all);
    pr_list(sts.as_slice())
}

/// What a review has decided.
pub open spec fn decision_text(decision: Option<Seq<char>>) -> Seq<char> {
    match decision {
        Some(d) => "decision: "@ + shown(d),
        None => "no review yet"@,
    }
}

/// The line of the latest CI check; none without a status.
pub open spec fn check_text(status: Option<Seq<char>>, plan: Option<Seq<char>>) -> Seq<char> {
    match status {
        None => seq![],
        Some(s) => match plan {
            Some(p) => "ci: "@ + shown(s) + " ("@ + shown(p) + ")\n"@,
            None => "ci: "@ + shown(s) + "\n"@,
        },
    }
}

/// The line of the two heads; none unless both are known.
pub open spec fn heads_text(base: Option<Seq<char>>, source: Option<Seq<char>>) -> Seq<char> {
    match (base, source) {
        (Some(b), Some(s)) => "diff: "@ + shown(b) + "..."@ + shown(s) + "\n"@,
        _ => seq![],
    }
}

/// The page of a pull request.
pub open spec fn pr_page_text(st: event::PrModel) -> Seq<char> {
    text::trimmed_end(
        "PR #"@ + text::decimal(st.id as nat) + " "@ + shown(text_or(st.title, "(untitled)"@))
            + " — "@ + decision_text(st.effective_decision) + "\n"@ + field_text(
            "merged: "@,
            st.merge_result,
        ) + check_text(st.ci_status, st.ci_plan) + field_text("base: "@, st.base_ref) + field_text(
            "source: "@,
            st.source_ref,
        ) + heads_text(st.base_head, st.source_head) + field_text("description: "@, st.description)
            + labels_text(st.labels) + rows_text("comment: "@, st.comments),
    )
}

/// Appends what a review has decided.
fn push_decision(out: &mut String, decision: &Option<String>)
    ensures
        final(out)@ == old(out)@ + decision_text(event::opt_text(*decision)),
{
    let ghost before = out@;
    match decision {
        Some(d) => {
            out.append("decision: ");
            push_stored(out, d.as_str());
        },
        None => {
            out.append("no review yet");
        },
    }
    assert(out@ =~= before + decision_text(event::opt_text(*decision)));
}

/// Appends the line of the latest CI check.
fn push_check(out: &mut String, status: &Option<String>, plan: &Option<String>)
    ensures
        final(out)@ == old(out)@ + check_text(event::opt_text(*status), event::opt_text(*plan)),
{
    let ghost before = out@;
    match status {
        Some(s) => {
            out.append("ci: ");
            push_stored(out, s.as_str());
            match plan {
                Some(p) => {
                    out.append(" (");
                    push_stored(out, p.as_str());
                    out.append(")\n");
                },
                None => {
                    out.append("\n");
                },
            }
        },
        None => {},
    }
    assert(out@ =~= before + check_text(event::opt_text(*status), event::opt_text(*plan)));
}

/// Appends the line of the two heads.
fn push_heads(out: &mut String, base: &Option<String>, source: &Option<String>)
    ensures
        final(out)@ == old(out)@ + heads_text(event::opt_text(*base), event::opt_text(*source)),
{
    let ghost before = out@;
    match (base, source) {
        (Some(b), Some(s)) => {
            out.append("diff: ");
            push_stored(out, b.as_str());
            out.append("...");
            push_stored(out, s.as_str());
            out.append("\n");
        },
        _ => {},
    }
    assert(out@ =~= before + heads_text(event::opt_text(*base), event::opt_text(*source)));
}

/// The page of a pull request.
pub fn pr_page(st: &PrState) -> (r: String)
    ensures
        r@ == pr_page_text(st@),
{
    let mut out = "PR #".to_owned();
    out.append(text::decimal_string(st.id).as_str());
    out.append(" ");
    push_stored_or(&mut out, &st.title, "(untitled)");
    out.append(" — ");
    push_decision(&mut out, &st.effective_decision);
    out.append("\n");
    push_field(&mut out, "merged: ", &st.merge_result);
    push_check(&mut out, &st.ci_status, &st.ci_plan);
    push_field(&mut out, "base: ", &st.base_ref);
    push_field(&mut out, "source: ", &st.source_ref);
    push_heads(&mut out, &st.base_head, &st.source_head);
    push_field(&mut out, "description: ", &st.description);
    push_labels(&mut out, &st.labels);
    push_rows(&mut out, "comment: ", &st.comments);
    text::trim_end_string(out.as_str())
}

// ---------------------------------------------------------------------------
// Rows are lines

/// Is there no control character in `s`?
pub open spec fn is_plain(s: Seq<char>) -> bool {
    forall|i: int| 0 <= i < s.len() ==> !is_control(#[trigger] s[i])
}

proof fn lemma_plain_add(a: Seq<char>, b: Seq<char>)
    requires
        is_plain(a),
        is_plain(b),
    ensures
        is_plain(a + b),
{
    assert forall|i: int| 0 <= i < (a + b).len() implies !is_control(#[trigger] (a + b)[i]) by {
        if i < a.len() {
            assert((a + b)[i] == a[i]);
        } else {
            assert((a + b)[i] == b[i - a.len()]);
        }
    }
}

proof fn lemma_plain_decimal(n: nat)
    ensures
        is_plain(text::decimal(n)),
{
    text::law_decimal_reads_back(n);
    let d = text::decimal(n);
    assert forall|i: int| 0 <= i < d.len() implies !is_control(#[trigger] d[i]) by {
        assert(text::is_digit(d[i]));
    }
}

/// The line of an issue is one line, whatever its title: a stored title forges no
/// further row and no terminal command.
pub proof fn law_issue_row_is_one_line(st: event::IssueModel)
    ensures
        issue_row(st).len() > 0,
        issue_row(st).last() == '\n',
        is_plain(issue_row(st).drop_last()),
{
    reveal_strlit("#");
    reveal_strlit(" ");
    reveal_strlit(" (");
    reveal_strlit("open");
    reveal_strlit("closed");
    reveal_strlit(")\n");
    let a = "#"@;
    let b = a + text::decimal(st.id as nat);
    let c = b + " "@;
    let d = c + shown(text_or(st.title, "(untitled)"@));
    let e = d + " ("@;
    let f = e + open_text(st.open);
    lemma_plain_decimal(st.id as nat);
    law_shown_has_no_controls(text_or(st.title, "(untitled)"@));
    lemma_plain_add(a, text::decimal(st.id as nat));
    lemma_plain_add(b, " "@);
    lemma_plain_add(c, shown(text_or(st.title, "(untitled)"@)));
    lemma_plain_add(d, " ("@);
    lemma_plain_add(e, open_text(st.open));
    lemma_plain_add(f, seq![')']);
    assert(")\n"@.len() == 2);
    assert(issue_row(st).drop_last() =~= f + seq![')']);
}

/// The line of a pull request is one line, whatever its title and the decision on it.
pub proof fn law_pr_row_is_one_line(st: event::PrModel)
    ensures
        pr_row(st).len() > 0,
        pr_row(st).last() == '\n',
        is_plain(pr_row(st).drop_last()),
{
    reveal_strlit("PR #");
    reveal_strlit(" ");
    reveal_strlit(" (");
    reveal_strlit(")\n");
    let a = "PR #"@;
    let b = a + text::decimal(st.id as nat);
    let c = b + " "@;
    let d = c + shown(text_or(st.title, "(untitled)"@));
    let e = d + " ("@;
    let f = e + shown(text_or(st.effective_decision, "no review"@));
    lemma_plain_decimal(st.id as nat);
    law_shown_has_no_controls(text_or(st.title, "(untitled)"@));
    law_shown_has_no_controls(text_or(st.effective_decision, "no review"@));
    lemma_plain_add(a, text::decimal(st.id as nat));
    lemma_plain_add(b, " "@);
    lemma_plain_add(c, shown(text_or(st.title, "(untitled)"@)));
    lemma_plain_add(d, " ("@);
    lemma_plain_add(e, shown(text_or(st.effective_decision, "no review"@)));
    lemma_plain_add(f, seq![')']);
    assert(")\n"@.len() == 2);
    assert(pr_row(st).drop_last() =~= f + seq![')']);
}

// ---------------------------------------------------------------------------
// What is shown of a number

/// The chain as mathematics sees it.
pub open spec fn chain_model(chain: Option<Vec<Event>>) -> Option<Seq<event::EventModel>> {
    match chain {
        None => None,
        Some(es) => Some(event::event_models(es@)),
    }
}

/// What is shown of an issue: its page, or that it is not there, or that its chain holds no
/// events.
pub open spec fn issue_answer(id: int, chain: Option<Seq<event::EventModel>>) -> Result<
    Seq<char>,
    Seq<char>,
> {
    match chain {
        None => Err(messages::entity_name(Entity::Issue, id) + " does not exist"@),
        Some(es) => if es.len() == 0 {
            Err(messages::entity_name(Entity::Issue, id) + " has no events"@)
        } else {
            Ok(issue_page_text(event::folded(es).issue))
        },
    }
}

/// What is shown of an issue, whose chain is `chain`; nothing stands for one that is not
/// there.
pub fn show_issue(id: u64, chain: &Option<Vec<Event>>) -> (r: Result<String, String>)
    ensures
        match (r, issue_answer(id as int, chain_model(*chain))) {
            (Ok(a), Ok(b)) => a@ == b,
            (Err(a), Err(b)) => a@ == b,
            _ => false,
        },
{
    match chain {
        None => Err(messages::does_not_exist(Entity::Issue, id)),
        Some(es) => if es.len() == 0 {
            Err(messages::has_no_events(Entity::Issue, id))
        } else {
            Ok(issue_page(&fold(es.as_slice()).issue))
        },
    }
}

/// What is shown of a pull request: its page, or that it is not there, or that its chain holds no
/// events.
pub open spec fn pr_answer(id: int, chain: Option<Seq<event::EventModel>>) -> Result<
    Seq<char>,
    Seq<char>,
> {
    match chain {
        None => Err(messages::entity_name(Entity::Pr, id) + " does not exist"@),
        Some(es) => if es.len() == 0 {
            Err(messages::entity_name(Entity::Pr, id) + " has no events"@)
        } else {
            Ok(pr_page_text(event::folded(es).pr))
        },
    }
}

/// What is shown of a pull request, whose chain is `chain`; nothing stands for one that is not
/// there.
pub fn show_pr(id: u64, chain: &Option<Vec<Event>>) -> (r: Result<String, String>)
    ensures
        match (r, pr_answer(id as int, chain_model(*chain))) {
            (Ok(a), Ok(b)) => a@ == b,
            (Err(a), Err(b)) => a@ == b,
            _ => false,
        },
{
    match chain {
        None => Err(messages::does_not_exist(Entity::Pr, id)),
        Some(es) => if es.len() == 0 {
            Err(messages::has_no_events(Entity::Pr, id))
        } else {
            Ok(pr_page(&fold(es.as_slice()).pr))
        },
    }
}

} // verus!
