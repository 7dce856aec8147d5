use vstd::prelude::*;

use crate::quota::{admit_write, Admission};

verus! {

/// What to do with an incoming put, before any byte is stored.
#[derive(Debug, Clone, Copy, PartialEq, Eq, Structural)]
pub enum PutDecision {
    /// The bearer token is missing or does not match the configured secret.
    Forbidden,
    /// The request carries no content length.
    NoContent,
    /// The write would take the container past its limit.
    TooLarge,
    /// The put may go ahead.
    Store,
}

/// Whether a presented bearer token grants write access: it must equal the secret exactly.
pub open spec fn token_grants(token: Option<Seq<char>>, secret: Seq<char>) -> bool {
    token == Some(secret)
}

/// Checks a presented bearer token against the configured secret, by exact equality.
pub fn token_accepted(token: Option<&String>, secret: &String) -> (r: bool)
    ensures
        r == token_grants(
            match token {
                Some(t) => Some(t@),
                None => None,
            },
            secret@,
        ),
{
    match token {
        Some(t) => *t == *secret,
        None => false,
    }
}

/// Decides an incoming put: a request without a token is refused first, then one without a
/// content length, then one over the quota of `limit` bytes against the `used` bytes already
/// stored, and only then one whose token is not the secret.
pub fn decide_put(token: Option<&String>, secret: &String, content_length: Option<u64>, used: u64, limit: u64) -> (r: PutDecision)
    ensures
        token is None ==> r == PutDecision::Forbidden,
        token is Some && content_length is None ==> r == PutDecision::NoContent,
        token is Some && content_length is Some && used as int + content_length->Some_0 as int
            > limit as int ==> r == PutDecision::TooLarge,
        token is Some && content_length is Some && used as int + content_length->Some_0 as int
            <= limit as int ==> (r == PutDecision::Forbidden <==> token->Some_0@ != secret@),
        token is Some && content_length is Some && used as int + content_length->Some_0 as int
            <= limit as int ==> (r == PutDecision::Store <==> token->Some_0@ == secret@),
{
    if token.is_none() {
        return PutDecision::Forbidden;
    }
    match content_length {
        None => PutDecision::NoContent,
        Some(n) => match admit_write(used, n, limit) {
            Admission::Reject => PutDecision::TooLarge,
            Admission::Admit => if token_accepted(token, secret) {
                PutDecision::Store
            } else {
                PutDecision::Forbidden
            },
        },
    }
}

} // verus!
