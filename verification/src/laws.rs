//! What holds of the rules taken together, proved from the specifications that the operations
//! are verified against.

use crate::alphabet::{readable, sampled, sampled_string, spelled, symbol_of, top_bits, CHARSET};
use crate::db::{after_load, after_request, fresh, loaded, Entry, Store};
use crate::expiry::{expiry_at_creation, live, owns};
use crate::names::{allocated, attempted, candidate, Attempt, ID_LENGTH, MAX_COLLISIONS};
use crate::upload::{after_upload, streamed, FILE_LIMIT};
use vstd::prelude::*;

verus! {

/// The alphabet holds each of its 58 symbols once.
pub proof fn law_alphabet_distinct(i: int, j: int)
    requires
        0 <= i < 58,
        0 <= j < 58,
        CHARSET@[i] == CHARSET@[j],
    ensures
        i == j,
{
}

/// The alphabet holds the readable characters, and only those.
pub proof fn law_alphabet_readable(b: u8)
    ensures
        readable(b) <==> exists|i: int| 0 <= i < 58 && CHARSET@[i] == b,
{
    if readable(b) {
        let i: int = if 65 <= b <= 72 {
            b - 65
        } else if 74 <= b <= 78 {
            b - 66
        } else if 80 <= b <= 90 {
            b - 67
        } else if 97 <= b <= 107 {
            b - 73
        } else if 109 <= b <= 122 {
            b - 74
        } else {
            b as int
        };
        assert(0 <= i < 58 && CHARSET@[i] == b);
    }
}

/// Sampling has no bias: the symbol at each place `at` of the alphabet is selected by the same
/// number of random words, the `2^26` words from `at * 2^26` on, and the words from
/// `58 * 2^26` on select nothing.
pub proof fn law_no_bias(draw: u32, at: int)
    requires
        0 <= at < 58,
    ensures
        symbol_of(draw) == Some(CHARSET@[at]) <==> at * 0x400_0000 <= draw < (at + 1) * 0x400_0000,
        symbol_of(draw) is None <==> draw >= 58 * 0x400_0000,
{
    if symbol_of(draw) == Some(CHARSET@[at]) {
        law_alphabet_distinct(top_bits(draw), at);
    }
}

/// A word that selects no symbol is passed over: sampling goes on with the words after it.
pub proof fn law_rejected_word_is_skipped(word: u32, rest: Seq<u32>)
    requires
        symbol_of(word) is None,
    ensures
        sampled(seq![word] + rest) == sampled(rest),
{
    assert((seq![word] + rest).drop_first() =~= rest);
}

/// Words that all select a symbol spell the string of their symbols, one word for each
/// symbol. With the law that every symbol has the same number of words, every string of a
/// given length has the same number of such supplies.
pub proof fn law_accepted_words_spell(draws: Seq<u32>)
    requires
        forall|i: int| 0 <= i < draws.len() ==> symbol_of(#[trigger] draws[i]) is Some,
    ensures
        sampled_string(draws, draws.len()) == (
            Some(Seq::new(draws.len(), |i: int| symbol_of(draws[i])->0)),
            Seq::<u32>::empty(),
        ),
    decreases draws.len(),
{
    if draws.len() > 0 {
        let rest = draws.drop_first();
        law_accepted_words_spell(rest);
        assert(sampled(draws) == (symbol_of(draws[0]), rest));
        let tail = Seq::new(rest.len(), |i: int| symbol_of(rest[i])->0);
        assert(seq![symbol_of(draws[0])->0] + tail =~= Seq::new(
            draws.len(),
            |i: int| symbol_of(draws[i])->0,
        ));
    } else {
        assert(Seq::<u8>::empty() =~= Seq::new(draws.len(), |i: int| symbol_of(draws[i])->0));
        assert(draws =~= Seq::<u32>::empty());
    }
}

/// A sampled symbol is a readable character.
pub proof fn law_sampled_readable(draws: Seq<u32>)
    ensures
        sampled(draws).0 matches Some(b) ==> readable(b),
    decreases draws.len(),
{
    if draws.len() > 0 {
        if symbol_of(draws[0]) is Some {
            law_alphabet_readable(symbol_of(draws[0])->0);
            assert(0 <= top_bits(draws[0]) < 58);
        } else {
            law_sampled_readable(draws.drop_first());
        }
    }
}

/// A sampled string has the length asked for and holds readable characters only.
pub proof fn law_sampled_string_readable(draws: Seq<u32>, len: nat)
    ensures
        sampled_string(draws, len).0 matches Some(symbols) ==> symbols.len() == len && forall|
            i: int,
        | 0 <= i < len ==> readable(#[trigger] symbols[i]),
    decreases len,
{
    if len > 0 {
        law_sampled_readable(draws);
        law_sampled_string_readable(sampled(draws).1, (len - 1) as nat);
    }
}

/// A candidate name has [`ID_LENGTH`] characters, all of them readable, and is not reserved.
pub proof fn law_candidate_well_formed(draws: Seq<u32>, reserved: Set<Seq<char>>)
    ensures
        candidate(draws, reserved).0 matches Some(id) ==> !reserved.contains(id) && exists|
            symbols: Seq<u8>,
        |
            id == spelled(symbols) && symbols.len() == ID_LENGTH && forall|i: int|
                0 <= i < ID_LENGTH ==> readable(#[trigger] symbols[i]),
    decreases draws.len(),
{
    law_sampled_string_readable(draws, ID_LENGTH as nat);
    match sampled_string(draws, ID_LENGTH as nat) {
        (Some(symbols), rest) => {
            if reserved.contains(spelled(symbols)) {
                crate::alphabet::lemma_sampled_string_shrinks(draws, ID_LENGTH as nat);
                law_candidate_well_formed(rest, reserved);
            }
        },
        (None, rest) => {},
    }
}

/// A sampled string that is not reserved is the candidate.
pub proof fn law_first_unreserved_is_candidate(draws: Seq<u32>, reserved: Set<Seq<char>>)
    requires
        sampled_string(draws, ID_LENGTH as nat).0 matches Some(symbols) && !reserved.contains(
            spelled(symbols),
        ),
    ensures
        candidate(draws, reserved) == (
            Some(spelled(sampled_string(draws, ID_LENGTH as nat).0->0)),
            sampled_string(draws, ID_LENGTH as nat).1,
        ),
{
}

/// A creation whose candidate is free gets that candidate as its name.
pub proof fn law_free_candidate_is_allocated(
    taken: Set<Seq<char>>,
    reserved: Set<Seq<char>>,
    draws: Seq<u32>,
    collisions: nat,
)
    requires
        candidate(draws, reserved).0 matches Some(id) && !taken.contains(id),
    ensures
        allocated(taken, reserved, draws, collisions) == candidate(draws, reserved),
{
}

/// The name that a creation gets is a well-formed candidate: never a reserved one.
pub proof fn law_allocated_well_formed(
    taken: Set<Seq<char>>,
    reserved: Set<Seq<char>>,
    draws: Seq<u32>,
    collisions: nat,
)
    ensures
        allocated(taken, reserved, draws, collisions).0 matches Some(id) ==> !reserved.contains(id)
            && id.len() == ID_LENGTH,
    decreases MAX_COLLISIONS - collisions,
{
    law_candidate_well_formed(draws, reserved);
    match candidate(draws, reserved) {
        (Some(id), rest) => {
            if taken.contains(id) && collisions < MAX_COLLISIONS {
                law_allocated_well_formed(taken, reserved, rest, collisions + 1);
            }
        },
        (None, rest) => {},
    }
}

/// A creation whose candidate is taken tries the next candidate while it has collided fewer
/// than [`MAX_COLLISIONS`] times, and takes the candidate over once it has collided that often.
pub proof fn law_collision_retries_then_recycles(
    taken: Set<Seq<char>>,
    reserved: Set<Seq<char>>,
    draws: Seq<u32>,
    collisions: nat,
)
    requires
        candidate(draws, reserved).0 matches Some(id) && taken.contains(id),
    ensures
        collisions < MAX_COLLISIONS ==> allocated(taken, reserved, draws, collisions) == allocated(
            taken,
            reserved,
            candidate(draws, reserved).1,
            collisions + 1,
        ),
        collisions >= MAX_COLLISIONS ==> allocated(taken, reserved, draws, collisions) == candidate(
            draws,
            reserved,
        ),
{
}

/// Of two creations that draw the same free candidate, the first creates the entry. The
/// second collides with it: it leaves the entry alone while it has collided fewer than
/// [`MAX_COLLISIONS`] times, and after that takes the name over, which leaves the entry
/// without its content and with the second creation's owner and expiry.
pub proof fn law_same_candidate(
    store: Store,
    id: Seq<char>,
    first: Entry,
    second: Entry,
    first_collisions: nat,
    second_collisions: nat,
)
    requires
        !store.contains_key(id),
        first == fresh(id, first.owner, first.created_at, first.delete_at),
        second == fresh(id, second.owner, second.created_at, second.delete_at),
    ensures
        attempted(store.contains_key(id), first_collisions) == Attempt::Created,
        attempted(store.insert(id, first).contains_key(id), second_collisions) == if second_collisions
            < MAX_COLLISIONS {
            Attempt::Collision
        } else {
            Attempt::Recycled
        },
        store.insert(id, first).insert(id, second)[id].content.len() == 0,
        store.insert(id, first).insert(id, second)[id].owner == second.owner,
{
}

/// An entry created at `created_at` with time to live `ttl` is returned by a read up to
/// `created_at + ttl`, whatever was appended to it. The first read after that instant reports
/// nothing and removes the entry, so that no later read finds it either.
pub proof fn law_ttl(
    store: Store,
    id: Seq<char>,
    owner: Seq<char>,
    content: Seq<u8>,
    created_at: int,
    ttl: int,
    now: int,
    later: int,
)
    ensures
        ({
            let entry = Entry {
                content,
                ..fresh(id, owner, created_at, expiry_at_creation(created_at, Some(ttl)))
            };
            let created = store.insert(id, entry);
            &&& now <= created_at + ttl ==> loaded(created, id, now) == Some(entry) && after_load(
                created,
                id,
                now,
            ) == created
            &&& now > created_at + ttl ==> loaded(created, id, now) is None && !after_load(
                created,
                id,
                now,
            ).contains_key(id) && loaded(after_load(created, id, now), id, later) is None
        }),
{
}

/// An entry without an expiry is returned by every read.
pub proof fn law_no_ttl(store: Store, id: Seq<char>, now: int)
    requires
        store.contains_key(id),
        store[id].delete_at is None,
    ensures
        loaded(store, id, now) == Some(store[id]),
        after_load(store, id, now) == store,
{
}

/// After a deletion request that presents the owner's token, every read at a later instant
/// reports nothing and leaves no entry behind.
pub proof fn law_owner_delete(store: Store, id: Seq<char>, asked: int, grace: int, now: int)
    requires
        store.contains_key(id),
        asked < now,
    ensures
        loaded(after_request(store, id, Some(store[id].owner), asked, grace), id, now) is None,
        !after_load(
            after_request(store, id, Some(store[id].owner), asked, grace),
            id,
            now,
        ).contains_key(id),
{
}

/// After a deletion request for a live entry that presents another token than the owner's, or
/// none, a read returns the entry with its content up to `grace` after the request, and reports
/// nothing once `grace` has passed.
pub proof fn law_other_delete(
    store: Store,
    id: Seq<char>,
    presented: Option<Seq<char>>,
    asked: int,
    grace: int,
    now: int,
)
    requires
        store.contains_key(id),
        live(store[id].delete_at, asked),
        !owns(store[id].owner, presented),
    ensures
        ({
            let requested = after_request(store, id, presented, asked, grace);
            &&& now <= asked + grace ==> loaded(requested, id, now) == Some(
                Entry { delete_at: Some(asked + grace), ..store[id] },
            )
            &&& now > asked + grace ==> loaded(requested, id, now) is None && !after_load(
                requested,
                id,
                now,
            ).contains_key(id)
        }),
{
}

/// A deletion request changes no other entry, and changes nothing of the entry it names but
/// its expiry.
pub proof fn law_request_keeps_content(
    store: Store,
    id: Seq<char>,
    presented: Option<Seq<char>>,
    asked: int,
    grace: int,
    other: Seq<char>,
)
    ensures
        ({
            let requested = after_request(store, id, presented, asked, grace);
            &&& other != id ==> requested.contains_key(other) == store.contains_key(other)
                && requested[other] == store[other]
            &&& requested.contains_key(id) ==> store.contains_key(id) && requested[id] == Entry {
                delete_at: requested[id].delete_at,
                ..store[id]
            }
        }),
{
}

/// A deletion request by the owner never moves the expiry of a live entry to a later instant,
/// and one by anyone else moves it to `grace` after the request.
pub proof fn law_request_expiry(
    store: Store,
    id: Seq<char>,
    presented: Option<Seq<char>>,
    asked: int,
    grace: int,
)
    requires
        store.contains_key(id),
        live(store[id].delete_at, asked),
    ensures
        ({
            let requested = after_request(store, id, presented, asked, grace);
            &&& owns(store[id].owner, presented) ==> requested[id].delete_at == Some(asked) && (
            store[id].delete_at matches Some(before) ==> asked <= before)
            &&& !owns(store[id].owner, presented) ==> requested[id].delete_at == Some(asked + grace)
        }),
{
}

/// A read never returns an entry whose expiry has passed, and never changes an entry that it
/// returns or any entry under another name.
pub proof fn law_load(store: Store, id: Seq<char>, now: int, other: Seq<char>)
    ensures
        loaded(store, id, now) matches Some(entry) ==> live(entry.delete_at, now) && entry
            == store[id] && after_load(store, id, now) == store,
        other != id ==> after_load(store, id, now).contains_key(other) == store.contains_key(other)
            && after_load(store, id, now)[other] == store[other],
{
}

/// Removing an entry twice is removing it once, so that two accesses that both find an entry
/// expired leave the store as one of them does.
pub proof fn law_purge_is_idempotent(store: Store, id: Seq<char>, first: int, second: int)
    requires
        store.contains_key(id),
        !live(store[id].delete_at, first),
    ensures
        store.remove(id).remove(id) == store.remove(id),
        after_load(after_load(store, id, first), id, second) == after_load(store, id, first),
        after_request(after_load(store, id, first), id, None, second, 0) == after_load(
            store,
            id,
            first,
        ),
{
    assert(store.remove(id).remove(id) =~= store.remove(id));
}

/// An access at a later instant finds expired whatever an earlier one found expired: an entry
/// does not come back to life as time goes on.
pub proof fn law_expired_stays_expired(delete_at: Option<int>, earlier: int, later: int)
    requires
        earlier <= later,
        !live(delete_at, earlier),
    ensures
        !live(delete_at, later),
{
}

/// A stream of chunks that are all empty writes nothing and stays within any limit.
pub proof fn law_empty_stream(chunks: Seq<Seq<u8>>, limit: int)
    requires
        limit >= 0,
        forall|i: int| 0 <= i < chunks.len() ==> (#[trigger] chunks[i]).len() == 0,
    ensures
        streamed(chunks, limit) == (Seq::<u8>::empty(), false),
    decreases chunks.len(),
{
    if chunks.len() > 0 {
        law_empty_stream(chunks.drop_first(), limit);
        assert(chunks[0] + Seq::<u8>::empty() =~= Seq::<u8>::empty());
    }
}

/// An upload without a single byte leaves no entry under the name that was allocated for it.
pub proof fn law_empty_upload(store: Store, id: Seq<char>, entry: Entry, chunks: Seq<Seq<u8>>)
    requires
        forall|i: int| 0 <= i < chunks.len() ==> (#[trigger] chunks[i]).len() == 0,
    ensures
        !after_upload(store, id, entry, chunks).contains_key(id),
{
    law_empty_stream(chunks, FILE_LIMIT as int);
}

/// What an upload writes is never more than the limit, and is the whole stream where the
/// stream stays within it.
pub proof fn law_stream_within_limit(chunks: Seq<Seq<u8>>, limit: int)
    requires
        limit >= 0,
    ensures
        streamed(chunks, limit).0.len() <= limit,
        !streamed(chunks, limit).1 ==> streamed(chunks, limit).0 == chunks.flatten(),
    decreases chunks.len(),
{
    if chunks.len() > 0 && chunks[0].len() <= limit {
        law_stream_within_limit(chunks.drop_first(), limit - chunks[0].len());
    }
}

} // verus!
