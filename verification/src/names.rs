//! Names of entries: which are reserved, how candidates are drawn, and what a creation does
//! when its candidate is taken.

use crate::alphabet::{
    lemma_sampled_string_shrinks, sampled_string, spelled, Draws, ReadableAlphanumeric,
};
use vstd::prelude::*;

verus! {

/// Number of symbols in an identifier.
pub const ID_LENGTH: usize = 4;

/// Number of collisions after which a creation takes over the name it collides with.
pub const MAX_COLLISIONS: u32 = 5;

/// The names that the routes of the service use for themselves.
pub open spec fn reserved_names() -> Set<Seq<char>> {
    set!["raw"@, "download"@, "delete"@]
}

/// The names in `list`.
pub open spec fn words(list: Seq<String>) -> Set<Seq<char>> {
    Set::new(|name: Seq<char>| exists|i: int| 0 <= i < list.len() && list[i]@ == name)
}

/// The next candidate name from a supply of random words: strings of [`ID_LENGTH`] symbols
/// are sampled until one is not reserved. `None` where the supply runs out first.
pub open spec fn candidate(draws: Seq<u32>, reserved: Set<Seq<char>>) -> (
    Option<Seq<char>>,
    Seq<u32>,
)
    decreases draws.len(),
{
    match sampled_string(draws, ID_LENGTH as nat) {
        (Some(symbols), rest) => if reserved.contains(spelled(symbols)) {
            proof {
                lemma_sampled_string_shrinks(draws, ID_LENGTH as nat);
            }
            candidate(rest, reserved)
        } else {
            (Some(spelled(symbols)), rest)
        },
        (None, rest) => (None, rest),
    }
}

/// The name that a creation gets, after `collisions` collisions so far: candidates are taken
/// until one is free, or until one collides after [`MAX_COLLISIONS`] collisions, which is then
/// taken over. `None` where the supply of random words runs out first.
pub open spec fn allocated(
    taken: Set<Seq<char>>,
    reserved: Set<Seq<char>>,
    draws: Seq<u32>,
    collisions: nat,
) -> (Option<Seq<char>>, Seq<u32>)
    decreases MAX_COLLISIONS - collisions,
{
    match candidate(draws, reserved) {
        (Some(id), rest) => if taken.contains(id) && collisions < MAX_COLLISIONS {
            allocated(taken, reserved, rest, collisions + 1)
        } else {
            (Some(id), rest)
        },
        (None, rest) => (None, rest),
    }
}

/// How an attempt to create an entry under a candidate name ended.
#[derive(Clone, Copy, Debug, PartialEq, Eq, Structural)]
pub enum Attempt {
    /// The name was free; the entry is stored under it.
    Created,
    /// The name is taken and stays so; another candidate is to be tried.
    Collision,
    /// The name was taken and has been taken over: the entry that was stored under it is
    /// replaced by the new one.
    Recycled,
}

/// How an attempt under a candidate ends that is taken or not, after `collisions` collisions
/// so far.
pub open spec fn attempted(taken: bool, collisions: nat) -> Attempt {
    if !taken {
        Attempt::Created
    } else if collisions < MAX_COLLISIONS {
        Attempt::Collision
    } else {
        Attempt::Recycled
    }
}

/// How an attempt under a candidate ends that is taken or not, after `collisions`
/// collisions so far in the same creation.
pub fn attempt_for(taken: bool, collisions: u32) -> (attempt: Attempt)
    ensures
        attempt == attempted(taken, collisions as nat),
{
    if !taken {
        Attempt::Created
    } else if collisions < MAX_COLLISIONS {
        Attempt::Collision
    } else {
        Attempt::Recycled
    }
}

/// The names that the routes of the service use for themselves: `raw`, `download` and
/// `delete`.
pub fn reserved_urls() -> (reserved: Vec<String>)
    ensures
        words(reserved@) == reserved_names(),
{
    let mut reserved: Vec<String> = Vec::new();
    reserved.push("raw".to_owned());
    reserved.push("download".to_owned());
    reserved.push("delete".to_owned());
    proof {
        assert(reserved@[0]@ == "raw"@);
        assert(reserved@[1]@ == "download"@);
        assert(reserved@[2]@ == "delete"@);
        assert(words(reserved@) =~= reserved_names());
    }
    reserved
}

/// Whether `name` is one of `reserved`.
pub fn is_reserved(reserved: &Vec<String>, name: &str) -> (found: bool)
    ensures
        found == words(reserved@).contains(name@),
{
    let key = name.to_owned();
    let mut i: usize = 0;
    while i < reserved.len()
        invariant
            i <= reserved@.len(),
            key@ == name@,
            forall|k: int| 0 <= k < i ==> reserved@[k]@ != name@,
        decreases reserved@.len() - i,
    {
        if reserved[i] == key {
            return true;
        }
        i = i + 1;
    }
    false
}

/// The next candidate name: strings of [`ID_LENGTH`] symbols are sampled from `rng` until
/// one is not reserved. `None` where `rng` runs out first.
pub fn candidate_name(rng: &mut Draws, reserved: &Vec<String>) -> (name: Option<String>)
    ensures
        final(rng)@ == candidate(old(rng)@, words(reserved@)).1,
        match candidate(old(rng)@, words(reserved@)).0 {
            Some(id) => name matches Some(name) && name@ == id,
            None => name is None,
        },
{
    loop
        invariant
            candidate(rng@, words(reserved@)) == candidate(old(rng)@, words(reserved@)),
        decreases rng@.len(),
    {
        proof {
            lemma_sampled_string_shrinks(rng@, ID_LENGTH as nat);
        }
        match ReadableAlphanumeric.sample_string(rng, ID_LENGTH) {
            Some(name) => {
                if !is_reserved(reserved, name.as_str()) {
                    return Some(name);
                }
            },
            None => {
                return None;
            },
        }
    }
}

} // verus!
