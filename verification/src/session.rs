//! The token by which the creator of an entry is known again.

use vstd::prelude::*;

verus! {

/// Number of characters of a token that is issued to a new creator.
pub const OWNER_TOKEN_LENGTH: usize = 20;

/// Whether `c` is an ASCII letter or digit.
pub open spec fn alphanumeric(c: char) -> bool {
    ||| '0' <= c <= '9'
    ||| 'A' <= c <= 'Z'
    ||| 'a' <= c <= 'z'
}

/// Whether `token` is one that is issued to a new creator: [`OWNER_TOKEN_LENGTH`] ASCII letters
/// and digits.
pub open spec fn issued_token(token: Seq<char>) -> bool {
    &&& token.len() == OWNER_TOKEN_LENGTH
    &&& forall|i: int| 0 <= i < token.len() ==> alphanumeric(#[trigger] token[i])
}

/// A string of `len` characters sampled from `rand::distributions::Alphanumeric` with the
/// thread-local generator, by `DistString::sample_string`. The distribution yields ASCII
/// letters and digits only; which ones is left open.
#[verifier::external_body]
fn random_alphanumeric(len: usize) -> (token: String)
    ensures
        token@.len() == len,
        forall|i: int| 0 <= i < token@.len() ==> alphanumeric(#[trigger] token@[i]),
{
    rand::distributions::DistString::sample_string(
        &rand::distributions::Alphanumeric,
        &mut rand::thread_rng(),
        len,
    )
}

/// The owner token of a request, and whether it was issued for this request.
#[derive(Debug)]
pub struct Owner {
    /// The token.
    pub token: String,
    /// Whether the token is new and has yet to be handed to the client.
    pub issued: bool,
}

/// The owner token of a request that presents the token `presented`, if any: the token it
/// presents, taken as it is, or a newly issued one where it presents none.
pub fn owner_for(presented: Option<&str>) -> (owner: Owner)
    ensures
        match presented {
            Some(token) => owner.token@ == token@ && !owner.issued,
            None => issued_token(owner.token@) && owner.issued,
        },
{
    match presented {
        Some(token) => Owner { token: token.to_owned(), issued: false },
        None => Owner { token: random_alphanumeric(OWNER_TOKEN_LENGTH), issued: true },
    }
}

} // verus!
