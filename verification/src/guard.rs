//! Telling the requests of browsers from those of other clients.

use vstd::prelude::*;

verus! {

/// The bytes of `Mozilla`, by which a browser names itself.
pub const MOZILLA: [u8; 7] = [77, 111, 122, 105, 108, 108, 97];

/// Whether `agent` holds `Mozilla` from `at` on.
pub open spec fn mozilla_at(agent: Seq<u8>, at: int) -> bool {
    0 <= at && at + 7 <= agent.len() && agent.subrange(at, at + 7) == MOZILLA@
}

/// Whether a client that names itself `agent` counts as a browser: `agent` holds `Mozilla`
/// with at least one more byte after it.
pub open spec fn from_browser(agent: Seq<u8>) -> bool {
    exists|at: int| at < agent.len() - 7 && mozilla_at(agent, at)
}

/// Whether `agent` holds `Mozilla` from `at` on.
fn holds_mozilla(agent: &[u8], at: usize) -> (holds: bool)
    requires
        at + 7 <= agent@.len(),
    ensures
        holds == mozilla_at(agent@, at as int),
{
    let len = agent.len();
    let mut i: usize = 0;
    while i < 7
        invariant
            i <= 7,
            at + 7 <= agent@.len() == len,
            forall|k: int| 0 <= k < i ==> agent@[at + k] == MOZILLA@[k],
        decreases 7 - i,
    {
        if agent[at + i] != MOZILLA[i] {
            assert(agent@.subrange(at as int, at + 7)[i as int] == agent@[at + i]);
            return false;
        }
        i = i + 1;
    }
    assert(agent@.subrange(at as int, at + 7) =~= MOZILLA@);
    true
}

/// Whether a request comes from something else than a browser, going by the `User-Agent`
/// header that it carries, if any.
///
/// A request without the header does. One with the header does unless the header holds
/// `Mozilla` with at least one more byte after it.
pub fn no_browser(user_agent: Option<&[u8]>) -> (other: bool)
    requires
        user_agent matches Some(agent) ==> agent@.len() >= 7,
    ensures
        other == !(user_agent matches Some(agent) && from_browser(agent@)),
{
    match user_agent {
        Some(agent) => {
            let end = agent.len() - 7;
            let mut at: usize = 0;
            while at < end
                invariant
                    at <= end,
                    end == agent@.len() - 7,
                    user_agent == Some(agent),
                    forall|k: int| 0 <= k < at ==> !mozilla_at(agent@, k),
                decreases end - at,
            {
                if holds_mozilla(agent, at) {
                    return false;
                }
                at = at + 1;
            }
            true
        },
        None => true,
    }
}

} // verus!
