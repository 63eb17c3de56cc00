//! Creating an entry from a stream of chunks, under a limit on its size.

use crate::alphabet::Draws;
use crate::config::Config;
use crate::db::{fresh, Entry, Sink, StorageError, Store, DB, NEW_FILE_DRAWS};
use crate::expiry::expiry_at_creation;
use crate::names::allocated;
use crate::time::{clocked, lemma_clocked_plus, representable, DateTime};
use vstd::prelude::*;

verus! {

/// Largest number of bytes that one entry may hold.
pub const FILE_LIMIT: usize = 10_000_000;

/// Why an upload was turned down.
#[derive(Debug)]
pub enum UploadError {
    /// The named field held more bytes than the limit given.
    FieldTooBig(&'static str, usize),
    /// The form held a field of a name that is not known.
    InvalidField(String),
    /// The upload held no content.
    NoData,
}

/// Why no entry was created.
#[derive(Debug)]
pub enum CreateError {
    /// The upload was turned down.
    Upload(UploadError),
    /// The store failed.
    Storage(StorageError),
    /// The supply of random words ran out before a name was allocated.
    OutOfDraws,
}

/// What is written from a stream of chunks under an allowance of `limit` bytes, and whether
/// the stream went over it: chunks are written whole and in order, up to the first one that is
/// larger than what is left of the allowance.
pub open spec fn streamed(chunks: Seq<Seq<u8>>, limit: int) -> (Seq<u8>, bool)
    decreases chunks.len(),
{
    if chunks.len() == 0 {
        (Seq::empty(), false)
    } else if chunks[0].len() > limit {
        (Seq::empty(), true)
    } else {
        let (rest, over) = streamed(chunks.drop_first(), limit - chunks[0].len());
        (chunks[0] + rest, over)
    }
}

/// What is left of an upload's allowance of bytes.
#[derive(Debug)]
pub struct Allowance {
    left: usize,
}

impl View for Allowance {
    type V = nat;

    closed spec fn view(&self) -> nat {
        self.left as nat
    }
}

impl Allowance {
    /// The allowance of a new upload: [`FILE_LIMIT`] bytes.
    pub fn new() -> (allowance: Allowance)
        ensures
            allowance@ == FILE_LIMIT,
    {
        Allowance { left: FILE_LIMIT }
    }

    /// Bytes left.
    pub fn left(&self) -> (left: usize)
        ensures
            left == self@,
    {
        self.left
    }

    /// Takes `len` bytes off the allowance for the next chunk. A chunk larger than what is
    /// left is turned down, and the allowance stays as it was.
    pub fn take(&mut self, len: usize) -> (taken: Result<(), UploadError>)
        ensures
            len <= old(self)@ ==> taken is Ok && final(self)@ == old(self)@ - len,
            len > old(self)@ ==> final(self)@ == old(self)@ && (taken matches Err(
                UploadError::FieldTooBig(field, limit),
            ) && field@ == "file"@ && limit == FILE_LIMIT),
    {
        match self.left.checked_sub(len) {
            Some(left) => {
                self.left = left;
                Ok(())
            },
            None => Err(UploadError::FieldTooBig("file", FILE_LIMIT)),
        }
    }
}

/// The chunks of a stream, each as its bytes.
pub open spec fn chunks_of(data: Seq<Vec<u8>>) -> Seq<Seq<u8>> {
    Seq::new(data.len(), |i: int| data[i]@)
}

/// The store after an upload of `chunks` into a new entry `id`: the entry holds what was
/// written, unless nothing was and the stream stayed within the limit, in which case no
/// entry is left under `id`.
pub open spec fn after_upload(
    store: Store,
    id: Seq<char>,
    entry: Entry,
    chunks: Seq<Seq<u8>>,
) -> Store {
    let (content, over) = streamed(chunks, FILE_LIMIT as int);
    if !over && content.len() == 0 {
        store.remove(id)
    } else {
        store.insert(id, Entry { content, ..entry })
    }
}

/// Whether `created` and the store `after` are what the upload of `chunks` gives in the store
/// `before`, for `owner` at `now` with time to live `max_age`, under the name `allocated`.
///
/// Without a name, nothing is stored. With one, the store is as [`after_upload`] says; an
/// upload that went over the limit reports the field `file` as too big, one without content
/// reports that it has no data, and any other returns the name. The store never fails an
/// upload into an entry that it has just created.
pub open spec fn created_as(
    created: Result<String, CreateError>,
    before: Store,
    after: Store,
    allocated: Option<Seq<char>>,
    owner: Seq<char>,
    max_age: int,
    now: int,
    chunks: Seq<Seq<u8>>,
) -> bool {
    match allocated {
        Some(id) => {
            let entry = fresh(id, owner, now, expiry_at_creation(now, Some(max_age)));
            let (content, over) = streamed(chunks, FILE_LIMIT as int);
            &&& after == after_upload(before, id, entry, chunks)
            &&& if over {
                created matches Err(CreateError::Upload(UploadError::FieldTooBig(field, limit)))
                    && field@ == "file"@ && limit == FILE_LIMIT
            } else if content.len() == 0 {
                created matches Err(CreateError::Upload(UploadError::NoData))
            } else {
                created matches Ok(name) && name@ == id
            }
        },
        None => created matches Err(CreateError::OutOfDraws) && after == before,
    }
}

/// How an upload ends that has written `len` bytes in all: one that has written none is
/// turned down with `NoData`.
pub fn finished(len: u64) -> (end: Result<(), UploadError>)
    ensures
        len > 0 ==> end is Ok,
        len == 0 ==> end matches Err(UploadError::NoData),
{
    if len == 0 {
        Err(UploadError::NoData)
    } else {
        Ok(())
    }
}

/// The store after an upload into the entry `id` is finished: an entry without content is
/// gone.
pub open spec fn after_finish(store: Store, id: Seq<char>) -> Store {
    if store.contains_key(id) && store[id].content.len() > 0 {
        store
    } else {
        store.remove(id)
    }
}

/// Finishes the upload that `sink` is for, and returns the name of its entry.
///
/// An entry that holds no content is removed, and the upload ends with `NoData`; so does one
/// whose entry is no longer stored.
pub fn finish(database: &mut DB, sink: Sink) -> (finished: Result<String, UploadError>)
    ensures
        final(database)@ == after_finish(old(database)@, sink@),
        final(database).reserved() == old(database).reserved(),
        match finished {
            Ok(name) => name@ == sink@ && old(database)@.contains_key(sink@) && old(
                database,
            )@[sink@].content.len() > 0,
            Err(error) => error matches UploadError::NoData && !final(database)@.contains_key(
                sink@,
            ),
        },
{
    let len = match database.file(sink.name()) {
        Some(file) => file.contents().len() as u64,
        None => 0,
    };
    match finished(len) {
        Ok(()) => Ok(sink.into_name()),
        Err(error) => {
            database.delete(sink.name());
            Err(error)
        },
    }
}

/// Creates an entry for `owner` from the chunks of `data`, at the instant that the clock
/// gives and under a name allocated from [`NEW_FILE_DRAWS`] random words, and returns its
/// name.
///
/// Whatever the clock and the random number generator give, the upload is one at that instant
/// from those words.
pub fn create_file(
    data: &Vec<Vec<u8>>,
    database: &mut DB,
    owner: String,
    config: &Config,
) -> (created: Result<String, CreateError>)
    ensures
        final(database).reserved() == old(database).reserved(),
        exists|draws: Seq<u32>, now: int|
            #![trigger allocated(old(database)@.dom(), old(database).reserved(), draws, 0), clocked(now)]
            {
                &&& draws.len() == NEW_FILE_DRAWS
                &&& clocked(now)
                &&& created_as(
                    created,
                    old(database)@,
                    final(database)@,
                    allocated(old(database)@.dom(), old(database).reserved(), draws, 0).0,
                    owner@,
                    config.max_age@,
                    now,
                    chunks_of(data@),
                )
            },
{
    let mut rng = Draws::random(NEW_FILE_DRAWS);
    let now = DateTime::now();
    proof {
        lemma_clocked_plus(now@, config.max_age);
    }
    let ghost draws = rng@;
    let created = create_file_at(data, database, &mut rng, owner, config, now);
    assert(clocked(now@) && allocated(old(database)@.dom(), old(database).reserved(), draws, 0).1
        == rng@);
    created
}

/// Creates an entry for `owner` at `now` from the chunks of `data`, and returns its name.
///
/// The entry gets a name allocated from `rng` and the time to live `config.max_age`. The
/// chunks are appended in order. A chunk that takes the content past [`FILE_LIMIT`] ends the
/// upload with `FieldTooBig`; what was written before it stays. An upload without any content
/// ends with `NoData`, and its entry is removed again.
pub fn create_file_at(
    data: &Vec<Vec<u8>>,
    database: &mut DB,
    rng: &mut Draws,
    owner: String,
    config: &Config,
    now: DateTime,
) -> (created: Result<String, CreateError>)
    requires
        representable(now@ + config.max_age@),
    ensures
        final(rng)@ == allocated(old(database)@.dom(), old(database).reserved(), old(rng)@, 0).1,
        final(database).reserved() == old(database).reserved(),
        created_as(
            created,
            old(database)@,
            final(database)@,
            allocated(old(database)@.dom(), old(database).reserved(), old(rng)@, 0).0,
            owner@,
            config.max_age@,
            now@,
            chunks_of(data@),
        ),
{
    let sink = match database.new_file_at(rng, owner, Some(config.max_age), now) {
        Some(sink) => sink,
        None => {
            return Err(CreateError::OutOfDraws);
        },
    };
    let ghost id = sink@;
    let ghost entry = fresh(id, owner@, now@, expiry_at_creation(now@, Some(config.max_age@)));
    let ghost chunks = chunks_of(data@);
    let ghost mut written = Seq::<u8>::empty();
    let mut allowance = Allowance::new();
    let mut i: usize = 0;
    proof {
        assert(chunks.subrange(0, chunks.len() as int) =~= chunks);
        assert(written + streamed(chunks, FILE_LIMIT as int).0 =~= streamed(
            chunks,
            FILE_LIMIT as int,
        ).0);
    }
    while i < data.len()
        invariant
            i <= data@.len(),
            sink@ == id,
            chunks == chunks_of(data@),
            entry == fresh(id, owner@, now@, expiry_at_creation(now@, Some(config.max_age@))),
            allocated(old(database)@.dom(), old(database).reserved(), old(rng)@, 0) == (
                Some(id),
                rng@,
            ),
            written.len() + allowance@ == FILE_LIMIT,
            database.reserved() == old(database).reserved(),
            database@ == old(database)@.insert(id, Entry { content: written, ..entry }),
            streamed(chunks, FILE_LIMIT as int) == (
                written + streamed(chunks.subrange(i as int, chunks.len() as int), allowance@ as int).0,
                streamed(chunks.subrange(i as int, chunks.len() as int), allowance@ as int).1,
            ),
        decreases data@.len() - i,
    {
        let ghost rest = chunks.subrange(i as int, chunks.len() as int);
        proof {
            assert(rest[0] == data@[i as int]@);
            assert(rest.drop_first() =~= chunks.subrange(i + 1, chunks.len() as int));
        }
        match allowance.take(data[i].len()) {
            Ok(()) => {},
            Err(error) => {
                return Err(CreateError::Upload(error));
            },
        }
        match database.append(&sink, data[i].as_slice()) {
            Ok(()) => {},
            Err(error) => {
                return Err(CreateError::Storage(error));
            },
        }
        proof {
            let tail = streamed(rest.drop_first(), allowance@ as int).0;
            assert(written + (rest[0] + tail) =~= (written + rest[0]) + tail);
            written = written + rest[0];
            assert(database@ =~= old(database)@.insert(id, Entry { content: written, ..entry }));
        }
        i = i + 1;
    }
    proof {
        assert(chunks.subrange(i as int, chunks.len() as int).len() == 0);
        assert(written + Seq::<u8>::empty() =~= written);
    }
    match finish(database, sink) {
        Ok(name) => Ok(name),
        Err(error) => {
            proof {
                assert(database@ =~= old(database)@.remove(id));
            }
            Err(CreateError::Upload(error))
        },
    }
}

} // verus!
