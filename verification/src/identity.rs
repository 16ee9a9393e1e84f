//! Who writes: the committer of forge commits and the actor of events.

use crate::event;
use crate::text;
use vstd::prelude::*;

verus! {

/// The committer where none is configured.
pub const DEFAULT_NAME: &'static str = "git-forge";

/// The address of the committer, and the actor, where none is configured.
pub const DEFAULT_EMAIL: &'static str = "forge@localhost";

/// The configured value, where it is more than white space.
pub open spec fn usable_text(v: Option<Seq<char>>) -> Option<Seq<char>> {
    match v {
        Some(s) => if text::trimmed(s).len() > 0 {
            Some(s)
        } else {
            None
        },
        None => None,
    }
}

/// The configured value, where it is more than white space.
pub fn usable(v: Option<String>) -> (r: Option<String>)
    ensures
        event::opt_text(r) == usable_text(event::opt_text(v)),
{
    match v {
        Some(s) => if text::trim_string(s.as_str()).as_str().unicode_len() > 0 {
            Some(s)
        } else {
            None
        },
        None => None,
    }
}

/// Who writes.
#[derive(Debug, Clone, PartialEq, Eq)]
pub struct Identity {
    pub name: String,
    pub email: String,
    pub actor: String,
}

/// Is `c` a character that Git strips from both ends of a name?
pub open spec fn is_stripped(c: char) -> bool {
    c <= ' ' || c == ',' || c == ':' || c == ';' || c == '<' || c == '>' || c == '"' || c == '\\'
        || c == '\''
}

/// Can the text be part of a signature? It has no NUL and no angle bracket, and something
/// is left of it when its ends are stripped.
pub open spec fn is_signature_part(s: Seq<char>) -> bool {
    &&& forall|i: int|
        0 <= i < s.len() ==> #[trigger] s[i] != '\0' && s[i] != '<' && s[i] != '>'
    &&& exists|i: int| 0 <= i < s.len() && !is_stripped(#[trigger] s[i])
}

/// Does Git accept the name and the address as a signature? The body calls
/// `git2::Signature::new`, whose success does not depend on the time it is given. It fails
/// where a part has a NUL, has an angle bracket, or is empty once its ends are stripped.
#[verifier::external_body]
fn makes_signature(name: &str, email: &str) -> (r: bool)
    ensures
        r == (is_signature_part(name@) && is_signature_part(email@)),
{
    git2::Signature::new(name, email, &git2::Time::new(0, 0)).is_ok()
}

/// The committer, for what is configured.
pub open spec fn committer_of(name: Option<Seq<char>>, email: Option<Seq<char>>) -> (
    Seq<char>,
    Seq<char>,
) {
    match (usable_text(name), usable_text(email)) {
        (Some(n), Some(e)) => if is_signature_part(n) && is_signature_part(e) {
            (n, e)
        } else {
            ("git-forge"@, "forge@localhost"@)
        },
        _ => ("git-forge"@, "forge@localhost"@),
    }
}

/// The actor, for what is configured.
pub open spec fn actor_of(email: Option<Seq<char>>) -> Seq<char> {
    match usable_text(email) {
        Some(a) => a,
        None => "forge@localhost"@,
    }
}

/// Who writes, for what is configured. The committer is the configured one only where
/// both parts are usable and Git accepts them; the actor is the configured address
/// wherever there is a usable one.
pub fn resolve_identity(name: Option<String>, email: Option<String>) -> (r: Identity)
    ensures
        (r.name@, r.email@) == committer_of(event::opt_text(name), event::opt_text(email)),
        r.actor@ == actor_of(event::opt_text(email)),
{
    let name = usable(name);
    let email = usable(email);
    let actor = match &email {
        Some(e) => e.clone(),
        None => DEFAULT_EMAIL.to_owned(),
    };
    if let (Some(n), Some(e)) = (name, email) {
        if makes_signature(n.as_str(), e.as_str()) {
            return Identity { name: n, email: e, actor };
        }
    }
    Identity { name: DEFAULT_NAME.to_owned(), email: DEFAULT_EMAIL.to_owned(), actor }
}

/// Whatever is configured, the committer is one that Git accepts.
pub proof fn law_committer_is_accepted(name: Option<Seq<char>>, email: Option<Seq<char>>)
    ensures
        is_signature_part(committer_of(name, email).0),
        is_signature_part(committer_of(name, email).1),
{
    reveal_strlit("git-forge");
    reveal_strlit("forge@localhost");
    assert(!is_stripped("git-forge"@[0]));
    assert(!is_stripped("forge@localhost"@[0]));
}

/// Every write has an actor that is more than white space.
pub proof fn law_actor_is_usable(email: Option<Seq<char>>)
    ensures
        text::trimmed(actor_of(email)).len() > 0,
{
    reveal_strlit("forge@localhost");
    let s = "forge@localhost"@;
    assert(s.len() == 15);
    assert(text::trimmed_start(s) == s);
    assert(text::trimmed_end(s) == s);
}

} // verus!
