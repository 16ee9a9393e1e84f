//! What holds of every chain of events and the state that it folds to.

use crate::event;
use crate::event::EventKind;
use vstd::prelude::*;

verus! {

/// A chain can be folded in two parts.
pub proof fn law_fold_in_parts(
    s: event::FoldModel,
    a: Seq<event::EventModel>,
    b: Seq<event::EventModel>,
)
    ensures
        event::folded_from(s, a + b) == event::folded_from(event::folded_from(s, a), b),
    decreases b.len(),
{
    if b.len() == 0 {
        assert(a + b =~= a);
    } else {
        law_fold_in_parts(s, a, b.drop_last());
        assert((a + b).drop_last() =~= a + b.drop_last());
        assert((a + b).last() == b.last());
    }
}

proof fn lemma_fold_push(es: Seq<event::EventModel>, e: event::EventModel)
    ensures
        event::folded(es.push(e)) == event::state_after(event::folded(es), e),
{
    assert(es.push(e).drop_last() =~= es);
}

/// An event of an unknown entity changes nothing.
pub proof fn law_unknown_entity_ignored(es: Seq<event::EventModel>, e: event::EventModel)
    requires
        e.entity != "issue"@,
        e.entity != "pr"@,
    ensures
        event::folded(es.push(e)) == event::folded(es),
{
    lemma_fold_push(es, e);
}

/// An event of an issue changes no pull request, and one of a pull request no
/// issue.
pub proof fn law_entities_apart(es: Seq<event::EventModel>, e: event::EventModel)
    ensures
        e.entity == "issue"@ ==> event::folded(es.push(e)).pr == event::folded(es).pr,
        e.entity == "pr"@ ==> event::folded(es.push(e)).issue == event::folded(es).issue,
{
    lemma_fold_push(es, e);
    reveal_strlit("issue");
    reveal_strlit("pr");
    assert("issue"@.len() == 5 && "pr"@.len() == 2);
}

/// Does the event `e` decide on a pull request?
pub open spec fn is_decision(e: event::EventModel) -> bool {
    e.entity == "pr"@ && e.kind == EventKind::PrReview && event::text_field(
        e.body,
        "decision"@,
    ) is Some
}

proof fn lemma_pr_is_no_issue()
    ensures
        "pr"@ != "issue"@,
{
    reveal_strlit("issue");
    reveal_strlit("pr");
    assert("issue"@.len() == 5 && "pr"@.len() == 2);
}

/// The last review that decides is the one that counts.
pub proof fn law_last_decision_counts(es: Seq<event::EventModel>, i: int)
    requires
        0 <= i < es.len(),
        is_decision(es[i]),
        forall|j: int| i < j < es.len() ==> !is_decision(#[trigger] es[j]),
    ensures
        event::folded(es).pr.effective_decision == event::text_field(es[i].body, "decision"@),
    decreases es.len(),
{
    lemma_pr_is_no_issue();
    let es0 = es.drop_last();
    if i < es.len() - 1 {
        assert(forall|j: int| 0 <= j < es0.len() ==> es0[j] == es[j]);
        law_last_decision_counts(es0, i);
        assert(!is_decision(es[es.len() - 1]));
    }
}

/// Without a review that decides there is no decision.
pub proof fn law_no_decision(es: Seq<event::EventModel>)
    requires
        forall|j: int| 0 <= j < es.len() ==> !is_decision(#[trigger] es[j]),
    ensures
        event::folded(es).pr.effective_decision is None,
    decreases es.len(),
{
    if es.len() > 0 {
        let es0 = es.drop_last();
        assert(forall|j: int| 0 <= j < es0.len() ==> es0[j] == es[j]);
        law_no_decision(es0);
        assert(!is_decision(es[es.len() - 1]));
    }
}

/// Does the event `e` record a CI check of a pull request?
pub open spec fn is_check(e: event::EventModel) -> bool {
    e.entity == "pr"@ && e.kind == EventKind::CiCheck
}

/// The latest CI check is the one that counts, in all of its parts.
pub proof fn law_latest_check_counts(es: Seq<event::EventModel>, i: int)
    requires
        0 <= i < es.len(),
        is_check(es[i]),
        forall|j: int| i < j < es.len() ==> !is_check(#[trigger] es[j]),
    ensures
        event::folded(es).pr.ci_status == event::text_field(es[i].body, "status"@),
        event::folded(es).pr.ci_plan == event::text_field(es[i].body, "plan"@),
        event::folded(es).pr.ci_actor == Some(es[i].actor),
        event::folded(es).pr.ci_ts == Some(es[i].ts),
    decreases es.len(),
{
    lemma_pr_is_no_issue();
    let es0 = es.drop_last();
    if i < es.len() - 1 {
        assert(forall|j: int| 0 <= j < es0.len() ==> es0[j] == es[j]);
        law_latest_check_counts(es0, i);
        assert(!is_check(es[es.len() - 1]));
    }
}

/// Without a CI check there is no CI status.
pub proof fn law_no_check(es: Seq<event::EventModel>)
    requires
        forall|j: int| 0 <= j < es.len() ==> !is_check(#[trigger] es[j]),
    ensures
        event::folded(es).pr.ci_status is None,
    decreases es.len(),
{
    if es.len() > 0 {
        let es0 = es.drop_last();
        assert(forall|j: int| 0 <= j < es0.len() ==> es0[j] == es[j]);
        law_no_check(es0);
        assert(!is_check(es[es.len() - 1]));
    }
}

/// Does the event `e` open or close an issue?
pub open spec fn opens_or_closes(e: event::EventModel) -> bool {
    e.entity == "issue"@ && (e.kind == EventKind::IssueCreated || e.kind == EventKind::IssueClose
        || e.kind == EventKind::IssueReopen)
}

/// An issue is open unless the last event that opened or closed it closed it.
pub proof fn law_last_close_or_reopen_counts(es: Seq<event::EventModel>, i: int)
    requires
        0 <= i < es.len(),
        opens_or_closes(es[i]),
        forall|j: int| i < j < es.len() ==> !opens_or_closes(#[trigger] es[j]),
    ensures
        event::folded(es).issue.open == (es[i].kind != EventKind::IssueClose),
    decreases es.len(),
{
    let es0 = es.drop_last();
    if i < es.len() - 1 {
        assert(forall|j: int| 0 <= j < es0.len() ==> es0[j] == es[j]);
        law_last_close_or_reopen_counts(es0, i);
        assert(!opens_or_closes(es[es.len() - 1]));
    }
}

/// Does the event `e` record a merge of a pull request?
pub open spec fn is_merge(e: event::EventModel) -> bool {
    e.entity == "pr"@ && e.kind == EventKind::PrMerge
}

/// The last recorded merge is the one that counts.
pub proof fn law_last_merge_counts(es: Seq<event::EventModel>, i: int)
    requires
        0 <= i < es.len(),
        is_merge(es[i]),
        forall|j: int| i < j < es.len() ==> !is_merge(#[trigger] es[j]),
    ensures
        event::folded(es).pr.merge_result == event::text_field(es[i].body, "result_commit"@),
    decreases es.len(),
{
    lemma_pr_is_no_issue();
    let es0 = es.drop_last();
    if i < es.len() - 1 {
        assert(forall|j: int| 0 <= j < es0.len() ==> es0[j] == es[j]);
        law_last_merge_counts(es0, i);
        assert(!is_merge(es[es.len() - 1]));
    }
}

/// What an event does to a pull request leaves its number alone; folding takes the number
/// from the event.
pub proof fn law_number_is_the_events(
    s: event::PrModel,
    es: Seq<event::EventModel>,
    e: event::EventModel,
)
    ensures
        event::pr_after(s, e).id == s.id,
        e.entity == "pr"@ ==> event::folded(es.push(e)).pr.id == e.entity_id,
        e.entity == "issue"@ ==> event::folded(es.push(e)).issue.id == e.entity_id,
{
    assert(es.push(e).drop_last() =~= es);
    reveal_strlit("issue");
    reveal_strlit("pr");
    assert("issue"@.len() == 5 && "pr"@.len() == 2);
}

/// A CI check changes nothing of a pull request but what is known of CI.
pub proof fn law_check_changes_only_ci(s: event::PrModel, e: event::EventModel)
    requires
        e.kind == EventKind::CiCheck,
    ensures
        event::pr_after(s, e) == (event::PrModel {
            ci_status: event::text_field(e.body, "status"@),
            ci_plan: event::text_field(e.body, "plan"@),
            ci_actor: Some(e.actor),
            ci_ts: Some(e.ts),
            ..s
        }),
{
}

/// Without a recorded merge there is no result.
pub proof fn law_no_merge(es: Seq<event::EventModel>)
    requires
        forall|j: int| 0 <= j < es.len() ==> !is_merge(#[trigger] es[j]),
    ensures
        event::folded(es).pr.merge_result is None,
    decreases es.len(),
{
    if es.len() > 0 {
        assert forall|j: int| 0 <= j < es.drop_last().len() implies !is_merge(
            #[trigger] es.drop_last()[j],
        ) by {
            assert(es.drop_last()[j] == es[j]);
        }
        law_no_merge(es.drop_last());
        assert(!is_merge(es[es.len() - 1]));
    }
}

/// Nothing that is recorded of a pull request loses a comment: the comments of a
/// shorter chain begin the comments of a longer one.
pub proof fn law_comments_only_grow(es: Seq<event::EventModel>, e: event::EventModel)
    ensures
        event::folded(es).pr.comments.is_prefix_of(event::folded(es.push(e)).pr.comments),
        event::folded(es).issue.comments.is_prefix_of(event::folded(es.push(e)).issue.comments),
{
    lemma_fold_push(es, e);
}

// ---------------------------------------------------------------------------
// What an event changes, and what it leaves alone

/// What is recorded of an issue changes what it is about, and nothing else: a creation sets
/// the title, the description and the labels and opens it, a comment comes last among the
/// comments, and closing and reopening touch nothing but that.
pub proof fn law_issue_events_change_their_own(s: event::IssueModel, e: event::EventModel)
    ensures
        ({
            let t = event::issue_after(s, e);
            let created = e.kind == EventKind::IssueCreated;
            let commented = e.kind == EventKind::IssueComment;
            let body = event::text_field(e.body, "body"@);
            &&& t.id == e.entity_id
            &&& created ==> t.title == event::text_field(e.body, "title"@)
            &&& created ==> t.description == event::text_field(e.body, "description"@)
            &&& created ==> t.labels == event::labels_of(e.body)
            &&& !created ==> t.title == s.title && t.description == s.description && t.labels
                == s.labels
            &&& created || e.kind == EventKind::IssueReopen ==> t.open
            &&& e.kind == EventKind::IssueClose ==> !t.open
            &&& !created && e.kind != EventKind::IssueReopen && e.kind != EventKind::IssueClose
                ==> t.open == s.open
            &&& commented && body is Some ==> t.comments == s.comments.push(body.unwrap())
            &&& !(commented && body is Some) ==> t.comments == s.comments
        }),
{
}

/// What is recorded of a pull request changes what it is about, and nothing else.
pub proof fn law_pr_events_change_their_own(s: event::PrModel, e: event::EventModel)
    ensures
        ({
            let t = event::pr_after(s, e);
            let created = e.kind == EventKind::PrCreated;
            let commented = e.kind == EventKind::PrComment;
            let reviewed = e.kind == EventKind::PrReview;
            let merged = e.kind == EventKind::PrMerge;
            let body = event::text_field(e.body, "body"@);
            let decision = event::text_field(e.body, "decision"@);
            &&& created ==> t.title == event::text_field(e.body, "title"@)
            &&& created ==> t.description == event::text_field(e.body, "description"@)
            &&& created ==> t.labels == event::labels_of(e.body)
            &&& created ==> t.source_ref == event::text_field(e.body, "source_ref"@)
            &&& created ==> t.base_ref == event::text_field(e.body, "base_ref"@)
            &&& created ==> t.source_head == event::text_field(e.body, "source_head"@)
            &&& created ==> t.base_head == event::text_field(e.body, "base_head"@)
            &&& created ==> t.merge_base == event::text_field(e.body, "merge_base"@)
            &&& !created ==> t.title == s.title && t.description == s.description && t.labels
                == s.labels
            &&& !created ==> t.source_ref == s.source_ref && t.base_ref == s.base_ref
            &&& !created ==> t.source_head == s.source_head && t.base_head == s.base_head
                && t.merge_base == s.merge_base
            &&& commented && body is Some ==> t.comments == s.comments.push(body.unwrap())
            &&& !(commented && body is Some) ==> t.comments == s.comments
            &&& reviewed && decision is Some ==> t.effective_decision == decision
            &&& !(reviewed && decision is Some) ==> t.effective_decision == s.effective_decision
            &&& merged ==> t.merge_result == event::text_field(e.body, "result_commit"@)
            &&& !merged ==> t.merge_result == s.merge_result
            &&& e.kind != EventKind::CiCheck ==> t.ci_status == s.ci_status && t.ci_plan
                == s.ci_plan && t.ci_actor == s.ci_actor && t.ci_ts == s.ci_ts
        }),
{
}

/// Before anything is recorded there is nothing to show, and no issue is open.
pub proof fn law_nothing_is_recorded_at_first()
    ensures
        ({
            let s = event::folded(seq![]);
            &&& s.issue.title is None && s.issue.description is None && !s.issue.open
            &&& s.issue.labels.len() == 0 && s.issue.comments.len() == 0
            &&& s.pr.title is None && s.pr.description is None
            &&& s.pr.labels.len() == 0 && s.pr.comments.len() == 0
            &&& s.pr.source_ref is None && s.pr.base_ref is None
            &&& s.pr.source_head is None && s.pr.base_head is None && s.pr.merge_base is None
            &&& s.pr.effective_decision is None && s.pr.merge_result is None
            &&& s.pr.ci_status is None && s.pr.ci_plan is None
        }),
{
}

} // verus!
