//! The short answers and errors of the commands.

use crate::oid::Oid;
use crate::text;
use vstd::prelude::*;

verus! {

/// What a number belongs to.
#[derive(Debug, Clone, Copy, PartialEq, Eq, Structural)]
pub enum Entity {
    Issue,
    Pr,
}

/// `issue #<n>` or `PR #<n>`.
pub open spec fn entity_name(e: Entity, id: int) -> Seq<char> {
    (match e {
        Entity::Issue => "issue #"@,
        Entity::Pr => "PR #"@,
    }) + text::decimal(id as nat)
}

/// `issue #<n>` or `PR #<n>`.
pub fn entity_str(e: Entity, id: u64) -> (r: String)
    ensures
        r@ == entity_name(e, id as int),
{
    let before = match e {
        Entity::Issue => "issue #",
        Entity::Pr => "PR #",
    };
    text::join2(before, text::decimal_string(id).as_str())
}

/// What is told of a number that nothing has.
pub fn does_not_exist(e: Entity, id: u64) -> (r: String)
    ensures
        r@ == entity_name(e, id as int) + " does not exist"@,
{
    text::join2(entity_str(e, id).as_str(), " does not exist")
}

/// What is told of a chain without events.
pub fn has_no_events(e: Entity, id: u64) -> (r: String)
    ensures
        r@ == entity_name(e, id as int) + " has no events"@,
{
    text::join2(entity_str(e, id).as_str(), " has no events")
}

/// What is told of a comment.
pub fn comment_added(e: Entity, id: u64) -> (r: String)
    ensures
        r@ == "comment added to "@ + entity_name(e, id as int),
{
    text::join2("comment added to ", entity_str(e, id).as_str())
}

/// What is told of a new issue.
pub fn issue_created(id: u64, title: &str) -> (r: String)
    ensures
        r@ == entity_name(Entity::Issue, id as int) + " created: "@ + title@,
{
    let mut s = entity_str(Entity::Issue, id);
    s.append(" created: ");
    s.append(title);
    s
}

/// What is told of an issue that was closed or reopened.
pub fn issue_state_set(id: u64, close: bool) -> (r: String)
    ensures
        r@ == entity_name(Entity::Issue, id as int) + (if close {
            " closed"@
        } else {
            " reopened"@
        }),
{
    text::join2(
        entity_str(Entity::Issue, id).as_str(),
        if close {
            " closed"
        } else {
            " reopened"
        },
    )
}

/// What is told of a new pull request.
pub fn pr_created(id: u64, title: &str, source: &str, base: &str) -> (r: String)
    ensures
        r@ == entity_name(Entity::Pr, id as int) + " created: "@ + title@ + " ("@ + source@ + " -> "@
            + base@ + ")"@,
{
    let mut s = entity_str(Entity::Pr, id);
    s.append(" created: ");
    s.append(title);
    s.append(" (");
    s.append(source);
    s.append(" -> ");
    s.append(base);
    s.append(")");
    s
}

/// What is told of a review.
pub fn reviewed(id: u64, decision: &str) -> (r: String)
    ensures
        r@ == "reviewed "@ + entity_name(Entity::Pr, id as int) + " ("@ + decision@ + ")"@,
{
    let mut s = "reviewed ".to_owned();
    s.append(entity_str(Entity::Pr, id).as_str());
    s.append(" (");
    s.append(decision);
    s.append(")");
    s
}

/// What is told of an anchor that is no commit.
pub fn no_such_anchor(commit: &str) -> (r: String)
    ensures
        r@ == "inline review --commit '"@ + commit@
            + "' does not resolve to a commit (FR-005 anchor must be a real commit)"@,
{
    let mut s = "inline review --commit '".to_owned();
    s.append(commit);
    s.append("' does not resolve to a commit (FR-005 anchor must be a real commit)");
    s
}

/// What is told where a snapshot ref of a pull request is missing: `which` is `source` or
/// `base`.
pub fn snapshot_missing(id: u64, which: &str) -> (r: String)
    ensures
        r@ == entity_name(Entity::Pr, id as int) + " snapshot "@ + which@ + " ref missing"@,
{
    let mut s = entity_str(Entity::Pr, id);
    s.append(" snapshot ");
    s.append(which);
    s.append(" ref missing");
    s
}

/// What is told of a base branch that is not there.
pub fn base_missing(base_ref: &str) -> (r: String)
    ensures
        r@ == "base branch '"@ + base_ref@ + "' does not exist"@,
{
    let mut s = "base branch '".to_owned();
    s.append(base_ref);
    s.append("' does not exist");
    s
}

/// The range that `git diff` is asked for: what the source has changed since it left the
/// base.
pub fn diff_range(base: Oid, source: Oid) -> (r: String)
    ensures
        r@ == crate::oid::oid_text(base) + "..."@ + crate::oid::oid_text(source),
{
    let mut s = base.to_hex();
    s.append("...");
    s.append(source.to_hex().as_str());
    s
}

/// What is told where the repository is not checked out.
pub fn no_working_directory() -> (r: String)
    ensures
        r@ == "cannot resolve repository working directory"@,
{
    "cannot resolve repository working directory".to_owned()
}

/// What is told where the tree of a snapshot cannot be read.
pub fn snapshot_unreadable() -> (r: String)
    ensures
        r@ == "cannot read PR snapshot source tree"@,
{
    "cannot read PR snapshot source tree".to_owned()
}

/// What is told where `git config` could not be started.
pub fn config_not_started(error: &str) -> (r: String)
    ensures
        r@ == "failed to spawn git config: "@ + error@,
{
    text::join2("failed to spawn git config: ", error)
}

/// How an error is told to the user.
pub fn complaint(error: &str) -> (r: String)
    ensures
        r@ == "git-forge: "@ + error@,
{
    text::join2("git-forge: ", error)
}

} // verus!
