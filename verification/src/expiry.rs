//! The expiry policy: when an entry counts as live, and what expiry a creation or a deletion
//! request gives it.

use crate::time::{instant, representable, DateTime, Duration};
use vstd::prelude::*;

verus! {

/// Whether an entry that expires at `delete_at` is live at `now`: it is where it never
/// expires, and up to and including the instant of its expiry.
pub open spec fn live(delete_at: Option<int>, now: int) -> bool {
    match delete_at {
        Some(at) => now <= at,
        None => true,
    }
}

/// The expiry of an entry created at `now` with time to live `ttl`; none where it has none.
pub open spec fn expiry_at_creation(now: int, ttl: Option<int>) -> Option<int> {
    match ttl {
        Some(span) => Some(now + span),
        None => None,
    }
}

/// Whether the token that a request presents is the owner's.
pub open spec fn owns(owner: Seq<char>, presented: Option<Seq<char>>) -> bool {
    presented == Some(owner)
}

/// The expiry that a deletion request made at `now` gives an entry: `now` where the request
/// presents the owner's token, and `now + grace` where it presents another or none.
pub open spec fn expiry_on_request(
    owner: Seq<char>,
    presented: Option<Seq<char>>,
    now: int,
    grace: int,
) -> int {
    if owns(owner, presented) {
        now
    } else {
        now + grace
    }
}

/// The span of an optional time to live, in nanoseconds.
pub open spec fn span(ttl: Option<Duration>) -> Option<int> {
    match ttl {
        Some(ttl) => Some(ttl@),
        None => None,
    }
}

/// The characters of an optional token.
pub open spec fn token(presented: Option<&str>) -> Option<Seq<char>> {
    match presented {
        Some(presented) => Some(presented@),
        None => None,
    }
}

/// Whether an entry that expires at `delete_at` is live at `now`.
pub fn is_live(delete_at: Option<DateTime>, now: DateTime) -> (alive: bool)
    ensures
        alive == live(instant(delete_at), now@),
{
    match delete_at {
        Some(at) => !now.is_after(&at),
        None => true,
    }
}

/// The expiry of an entry created at `now` with time to live `ttl`.
pub fn creation_expiry(now: DateTime, ttl: Option<Duration>) -> (delete_at: Option<DateTime>)
    requires
        ttl matches Some(ttl) ==> representable(now@ + ttl@),
    ensures
        instant(delete_at) == expiry_at_creation(now@, span(ttl)),
{
    match ttl {
        Some(ttl) => Some(now.plus(ttl)),
        None => None,
    }
}

/// Whether `presented` is the token `owner`. Tokens are compared as they are, character by
/// character; a request that presents none owns nothing.
pub fn is_owner(owner: &str, presented: Option<&str>) -> (owner_asks: bool)
    ensures
        owner_asks == owns(owner@, token(presented)),
{
    match presented {
        Some(presented) => presented.to_owned() == owner.to_owned(),
        None => false,
    }
}

/// The expiry that a deletion request made at `now` gives an entry of `owner`.
pub fn deletion_expiry(
    owner: &str,
    presented: Option<&str>,
    now: DateTime,
    time_to_delete: Duration,
) -> (delete_at: DateTime)
    requires
        representable(now@ + time_to_delete@),
    ensures
        delete_at@ == expiry_on_request(owner@, token(presented), now@, time_to_delete@),
{
    if is_owner(owner, presented) {
        now
    } else {
        now.plus(time_to_delete)
    }
}

} // verus!
