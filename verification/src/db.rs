//! The entries and the lifecycle operations on them.

use crate::alphabet::Draws;
use crate::expiry::{
    creation_expiry, deletion_expiry, expiry_at_creation, expiry_on_request, is_live, live, span,
    token,
};
use crate::files::{Contents, Metadata};
use crate::names::{
    allocated, attempt_for, attempted, candidate_name, is_reserved, reserved_names, reserved_urls,
    words, Attempt, MAX_COLLISIONS,
};
use crate::time::{clocked, instant, lemma_clocked_plus, representable, DateTime, Duration};
use vstd::prelude::*;

verus! {

/// An entry as the lifecycle rules see it.
pub struct Entry {
    /// The identifier under which the entry is stored.
    pub id: Seq<char>,
    /// The bytes, in order.
    pub content: Seq<u8>,
    /// The capability token of the creator.
    pub owner: Seq<char>,
    /// When the entry was created.
    pub created_at: int,
    /// When the entry expires, if ever.
    pub delete_at: Option<int>,
}

/// The entries by identifier.
pub type Store = Map<Seq<char>, Entry>;

/// Number of random words that a creation draws for its name.
pub const NEW_FILE_DRAWS: usize = 64;

/// The entry that a creation at `now` stores under `id`: no content yet, `owner` as its
/// owner, and `delete_at` as its expiry.
pub open spec fn fresh(id: Seq<char>, owner: Seq<char>, now: int, delete_at: Option<int>) -> Entry {
    Entry { id, content: Seq::empty(), owner, created_at: now, delete_at }
}

/// What a read of `name` at `now` returns: the entry where one is stored and live.
pub open spec fn loaded(store: Store, name: Seq<char>, now: int) -> Option<Entry> {
    if store.contains_key(name) && live(store[name].delete_at, now) {
        Some(store[name])
    } else {
        None
    }
}

/// The store after a read of `name` at `now`: an entry found expired is gone.
pub open spec fn after_load(store: Store, name: Seq<char>, now: int) -> Store {
    if store.contains_key(name) && !live(store[name].delete_at, now) {
        store.remove(name)
    } else {
        store
    }
}

/// The store after a deletion request for `name` made at `now`: nothing changes where no
/// entry is stored; an entry found expired is gone; a live entry gets the expiry that the
/// policy gives the request, and keeps its content.
pub open spec fn after_request(
    store: Store,
    name: Seq<char>,
    presented: Option<Seq<char>>,
    now: int,
    grace: int,
) -> Store {
    if !store.contains_key(name) {
        store
    } else if !live(store[name].delete_at, now) {
        store.remove(name)
    } else {
        store.insert(
            name,
            Entry {
                delete_at: Some(expiry_on_request(store[name].owner, presented, now, grace)),
                ..store[name]
            },
        )
    }
}

/// A stored entry: its name, its content in blocks, and its metadata.
#[derive(Debug)]
pub struct File {
    name: String,
    contents: Contents,
    metadata: Metadata,
    created_at: DateTime,
}

impl View for File {
    type V = Entry;

    closed spec fn view(&self) -> Entry {
        Entry {
            id: self.name@,
            content: self.contents@,
            owner: self.metadata.owner@,
            created_at: self.created_at@,
            delete_at: instant(self.metadata.delete_at),
        }
    }
}

impl File {
    /// The identifier under which the entry is stored.
    pub fn name(&self) -> (name: &str)
        ensures
            name@ == self@.id,
    {
        self.name.as_str()
    }

    /// The content.
    pub fn contents(&self) -> (contents: &Contents)
        ensures
            contents@ == self@.content,
    {
        &self.contents
    }

    /// The metadata.
    pub fn metadata(&self) -> (metadata: &Metadata)
        ensures
            metadata@.owner == self@.owner,
            metadata@.delete_at == self@.delete_at,
    {
        &self.metadata
    }

    /// When the entry was created.
    pub fn created_at(&self) -> (at: DateTime)
        ensures
            at@ == self@.created_at,
    {
        self.created_at
    }
}

/// Why the store could not do what it was asked to.
#[derive(Clone, Copy, Debug, PartialEq, Eq, Structural)]
pub enum StorageError {
    /// The entry that was to be written to is no longer stored.
    Deleted,
}

/// The right to append to the entry that a creation has stored. A creation hands it out once,
/// and finishing the upload uses it up.
///
/// Its view is the name of the entry.
#[derive(Debug)]
pub struct Sink {
    name: String,
}

impl View for Sink {
    type V = Seq<char>;

    closed spec fn view(&self) -> Seq<char> {
        self.name@
    }
}

impl Sink {
    /// The name of the entry.
    pub fn name(&self) -> (name: &str)
        ensures
            name@ == self@,
    {
        self.name.as_str()
    }

    /// Gives the right up for the name of the entry.
    pub fn into_name(self) -> (name: String)
        ensures
            name@ == self@,
    {
        self.name
    }
}

/// The entries in memory, each under its own name.
///
/// Its view maps every stored name to its entry.
pub struct DB {
    files: Vec<File>,
    reserved: Vec<String>,
}

/// Whether the file at `at` goes by `name`.
spec fn named(files: Seq<File>, name: Seq<char>, at: int) -> bool {
    0 <= at < files.len() && files[at].name@ == name
}

/// Whether no two files go by the same name.
spec fn distinct(files: Seq<File>) -> bool {
    forall|i: int, j: int|
        #![trigger files[i], files[j]]
        0 <= i < files.len() && 0 <= j < files.len() && files[i].name@ == files[j].name@ ==> i
            == j
}

/// The entries that `files` holds, by name.
spec fn entries(files: Seq<File>) -> Store {
    Map::new(
        |name: Seq<char>| exists|at: int| named(files, name, at),
        |name: Seq<char>| files[choose|at: int| named(files, name, at)]@,
    )
}

proof fn lemma_entry_at(files: Seq<File>, at: int)
    requires
        distinct(files),
        0 <= at < files.len(),
    ensures
        entries(files).contains_key(files[at].name@),
        entries(files)[files[at].name@] == files[at]@,
{
    let name = files[at].name@;
    assert(named(files, name, at));
    let chosen = choose|k: int| named(files, name, k);
    assert(files[chosen].name@ == files[at].name@);
}

proof fn lemma_entries_push(files: Seq<File>, file: File)
    requires
        distinct(files),
        !entries(files).contains_key(file.name@),
    ensures
        distinct(files.push(file)),
        entries(files.push(file)) == entries(files).insert(file.name@, file@),
{
    let after = files.push(file);
    assert forall|i: int, j: int|
        0 <= i < after.len() && 0 <= j < after.len() && after[i].name@ == after[j].name@ implies i
        == j by {
        if i < files.len() && j < files.len() {
            assert(files[i].name@ == files[j].name@);
        } else if i < files.len() {
            assert(named(files, file.name@, i));
        } else if j < files.len() {
            assert(named(files, file.name@, j));
        }
    }
    assert forall|name: Seq<char>|
        entries(after).contains_key(name) == entries(files).insert(file.name@, file@).contains_key(
            name,
        ) by {
        if entries(after).contains_key(name) {
            let at = choose|at: int| named(after, name, at);
            if at < files.len() {
                assert(named(files, name, at));
            }
        }
        if entries(files).contains_key(name) {
            let at = choose|at: int| named(files, name, at);
            assert(named(after, name, at));
        }
        if name == file.name@ {
            assert(named(after, name, files.len() as int));
        }
    }
    assert forall|name: Seq<char>| entries(after).contains_key(name) implies entries(after)[name]
        == entries(files).insert(file.name@, file@)[name] by {
        let at = choose|at: int| named(after, name, at);
        lemma_entry_at(after, at);
        if at < files.len() {
            lemma_entry_at(files, at);
        }
    }
    assert(entries(after) =~= entries(files).insert(file.name@, file@));
}

proof fn lemma_entries_swap_remove(files: Seq<File>, after: Seq<File>, at: int)
    requires
        distinct(files),
        0 <= at < files.len(),
        after.len() == files.len() - 1,
        forall|k: int| 0 <= k < after.len() && k != at ==> after[k] == files[k],
        at < after.len() ==> after[at] == files[files.len() - 1],
    ensures
        distinct(after),
        entries(after) == entries(files).remove(files[at].name@),
{
    let gone = files[at].name@;
    let last = files.len() - 1;
    let origin = |k: int| if k == at { last } else { k };
    assert forall|k: int| 0 <= k < after.len() implies after[k] == files[origin(k)] && 0
        <= origin(k) < files.len() && origin(k) != at by {}
    assert forall|i: int, j: int|
        0 <= i < after.len() && 0 <= j < after.len() && after[i].name@ == after[j].name@ implies i
        == j by {
        assert(files[origin(i)].name@ == files[origin(j)].name@);
    }
    assert forall|name: Seq<char>|
        entries(after).contains_key(name) == entries(files).remove(gone).contains_key(name) by {
        if entries(after).contains_key(name) {
            let k = choose|k: int| named(after, name, k);
            assert(named(files, name, origin(k)));
            assert(files[origin(k)].name@ == name);
            if name == gone {
                assert(files[origin(k)].name@ == files[at].name@);
            }
        }
        if entries(files).contains_key(name) && name != gone {
            let k = choose|k: int| named(files, name, k);
            if k == last {
                assert(named(after, name, at));
            } else {
                assert(named(after, name, k));
            }
        }
    }
    assert forall|name: Seq<char>| entries(after).contains_key(name) implies entries(after)[name]
        == entries(files).remove(gone)[name] by {
        let k = choose|k: int| named(after, name, k);
        lemma_entry_at(after, k);
        lemma_entry_at(files, origin(k));
    }
    assert(entries(after) =~= entries(files).remove(gone));
}

impl View for DB {
    type V = Store;

    closed spec fn view(&self) -> Store {
        entries(self.files@)
    }
}

impl DB {
    #[verifier::type_invariant]
    spec fn inv(self) -> bool {
        distinct(self.files@)
    }

    /// The names that no entry may be given.
    pub closed spec fn reserved(&self) -> Set<Seq<char>> {
        words(self.reserved@)
    }

    /// Whether `name` is reserved.
    pub fn is_reserved(&self, name: &str) -> (reserved: bool)
        ensures
            reserved == self.reserved().contains(name@),
    {
        is_reserved(&self.reserved, name)
    }

    /// An empty store in which the names of [`reserved_names`] are reserved.
    pub fn new() -> (db: DB)
        ensures
            db@ == Map::<Seq<char>, Entry>::empty(),
            db.reserved() == reserved_names(),
    {
        DB::with_reserved(reserved_urls())
    }

    /// An empty store in which the names in `reserved` are reserved.
    pub fn with_reserved(reserved: Vec<String>) -> (db: DB)
        ensures
            db@ == Map::<Seq<char>, Entry>::empty(),
            db.reserved() == words(reserved@),
    {
        let db = DB { files: Vec::new(), reserved };
        assert(db@ =~= Map::<Seq<char>, Entry>::empty());
        db
    }

    /// Where the entry `name` is held, if it is stored.
    fn find(&self, name: &String) -> (at: Option<usize>)
        ensures
            match at {
                Some(i) => named(self.files@, name@, i as int) && self@.contains_key(name@)
                    && self@[name@] == self.files@[i as int]@ && self@[name@].id == name@,
                None => !self@.contains_key(name@),
            },
    {
        proof {
            use_type_invariant(self);
        }
        let mut i: usize = 0;
        while i < self.files.len()
            invariant
                i <= self.files@.len(),
                distinct(self.files@),
                forall|k: int| 0 <= k < i ==> !named(self.files@, name@, k),
            decreases self.files@.len() - i,
        {
            if self.files[i].name == *name {
                proof {
                    lemma_entry_at(self.files@, i as int);
                }
                return Some(i);
            }
            i = i + 1;
        }
        None
    }

    /// Takes the file at `at` out of the store.
    fn take(&mut self, at: usize) -> (file: File)
        requires
            at < old(self).files@.len(),
        ensures
            file == old(self).files@[at as int],
            old(self)@.contains_key(file@.id),
            old(self)@[file@.id] == file@,
            final(self)@ == old(self)@.remove(file@.id),
            final(self).reserved() == old(self).reserved(),
    {
        proof {
            use_type_invariant(&*self);
            lemma_entry_at(self.files@, at as int);
        }
        let ghost before = self.files@;
        let mut files: Vec<File> = Vec::new();
        core::mem::swap(&mut self.files, &mut files);
        let file = files.swap_remove(at);
        proof {
            lemma_entries_swap_remove(before, files@, at as int);
        }
        self.files = files;
        file
    }

    /// Puts `file` into the store, which holds none of its name.
    fn put(&mut self, file: File)
        requires
            !old(self)@.contains_key(file@.id),
        ensures
            final(self)@ == old(self)@.insert(file@.id, file@),
            final(self).reserved() == old(self).reserved(),
    {
        proof {
            use_type_invariant(&*self);
            lemma_entries_push(self.files@, file);
        }
        let mut files: Vec<File> = Vec::new();
        core::mem::swap(&mut self.files, &mut files);
        files.push(file);
        self.files = files;
    }

    /// Whether an entry is stored under `name`.
    pub fn contains(&self, name: &str) -> (stored: bool)
        ensures
            stored == self@.contains_key(name@),
    {
        let key = name.to_owned();
        self.find(&key).is_some()
    }

    /// The entry stored under `name`, whether or not it has expired.
    pub fn file(&self, name: &str) -> (file: Option<&File>)
        ensures
            match file {
                Some(file) => self@.contains_key(name@) && file@ == self@[name@] && file@.id
                    == name@,
                None => !self@.contains_key(name@),
            },
    {
        let key = name.to_owned();
        match self.find(&key) {
            Some(at) => Some(&self.files[at]),
            None => None,
        }
    }

    /// The owner token of the entry stored under `name`.
    pub fn file_owner(&self, name: &str) -> (owner: Option<String>)
        ensures
            match owner {
                Some(owner) => self@.contains_key(name@) && owner@ == self@[name@].owner,
                None => !self@.contains_key(name@),
            },
    {
        let key = name.to_owned();
        match self.find(&key) {
            Some(at) => Some(self.files[at].metadata.owner.clone()),
            None => None,
        }
    }

    /// Removes the entry `name` with its content and metadata; nothing happens where none is
    /// stored.
    pub fn delete(&mut self, name: &str)
        ensures
            final(self)@ == old(self)@.remove(name@),
            final(self).reserved() == old(self).reserved(),
    {
        let key = name.to_owned();
        match self.find(&key) {
            Some(at) => {
                let _ = self.take(at);
            },
            None => {
                assert(self@ =~= old(self)@.remove(name@));
            },
        }
    }

    /// Drops the content of the entry `name`, where one is stored; its metadata stays.
    pub fn truncate(&mut self, name: &str)
        ensures
            final(self)@ == if old(self)@.contains_key(name@) {
                old(self)@.insert(name@, Entry { content: Seq::empty(), ..old(self)@[name@] })
            } else {
                old(self)@
            },
            final(self).reserved() == old(self).reserved(),
    {
        let key = name.to_owned();
        match self.find(&key) {
            Some(at) => {
                let mut file = self.take(at);
                file.contents.truncate();
                self.put(file);
                assert(self@ =~= old(self)@.insert(
                    name@,
                    Entry { content: Seq::empty(), ..old(self)@[name@] },
                ));
            },
            None => {},
        }
    }

    /// Appends `data` to the content of the entry that `sink` is for. Fails, and writes
    /// nothing, where the entry is no longer stored.
    pub fn append(&mut self, sink: &Sink, data: &[u8]) -> (written: Result<(), StorageError>)
        requires
            old(self)@.contains_key(sink@) ==> old(self)@[sink@].content.len() + data@.len()
                <= usize::MAX,
        ensures
            written == if old(self)@.contains_key(sink@) {
                Ok::<(), StorageError>(())
            } else {
                Err::<(), StorageError>(StorageError::Deleted)
            },
            final(self)@ == if old(self)@.contains_key(sink@) {
                old(self)@.insert(
                    sink@,
                    Entry { content: old(self)@[sink@].content + data@, ..old(self)@[sink@] },
                )
            } else {
                old(self)@
            },
            final(self).reserved() == old(self).reserved(),
    {
        let ghost name = sink.name;
        match self.find(&sink.name) {
            Some(at) => {
                let mut file = self.take(at);
                file.contents.append(data);
                self.put(file);
                assert(self@ =~= old(self)@.insert(
                    name@,
                    Entry { content: old(self)@[name@].content + data@, ..old(self)@[name@] },
                ));
                Ok(())
            },
            None => Err(StorageError::Deleted),
        }
    }

    /// Reads the entry `name` at the instant that the clock gives.
    ///
    /// Whatever the clock gives, the read is a read at that instant.
    pub fn load_file(&mut self, name: &str) -> (file: Option<&File>)
        ensures
            final(self).reserved() == old(self).reserved(),
            exists|now: int|
                #![trigger after_load(old(self)@, name@, now)]
                {
                    &&& clocked(now)
                    &&& final(self)@ == after_load(old(self)@, name@, now)
                    &&& match loaded(old(self)@, name@, now) {
                        Some(entry) => file matches Some(file) && file@ == entry && file@.id
                            == name@,
                        None => file is None,
                    }
                },
    {
        let now = DateTime::now();
        self.load_file_at(name, now)
    }

    /// Reads the entry `name` at `now`.
    ///
    /// Returns the entry where one is stored and live. An entry found expired is removed, and
    /// the read reports nothing, as it does where no entry is stored.
    pub fn load_file_at(&mut self, name: &str, now: DateTime) -> (file: Option<&File>)
        ensures
            final(self)@ == after_load(old(self)@, name@, now@),
            final(self).reserved() == old(self).reserved(),
            match loaded(old(self)@, name@, now@) {
                Some(entry) => file matches Some(file) && file@ == entry && file@.id == name@,
                None => file is None,
            },
    {
        let key = name.to_owned();
        match self.find(&key) {
            Some(at) => {
                if is_live(self.files[at].metadata.delete_at, now) {
                    Some(&self.files[at])
                } else {
                    let _ = self.take(at);
                    None
                }
            },
            None => None,
        }
    }

    /// Asks for the entry `name` to be deleted, presenting the token `presented`, at the
    /// instant that the clock gives.
    ///
    /// Whatever the clock gives, the request is one made at that instant.
    pub fn request_delete(&mut self, name: &str, presented: Option<&str>, time_to_delete: Duration)
        ensures
            final(self).reserved() == old(self).reserved(),
            exists|now: int|
                #![trigger after_request(old(self)@, name@, token(presented), now, time_to_delete@)]
                clocked(now) && final(self)@ == after_request(
                    old(self)@,
                    name@,
                    token(presented),
                    now,
                    time_to_delete@,
                ),
    {
        let now = DateTime::now();
        proof {
            lemma_clocked_plus(now@, time_to_delete);
        }
        self.request_delete_at(name, presented, now, time_to_delete)
    }

    /// Asks at `now` for the entry `name` to be deleted, presenting the token `presented`.
    ///
    /// Nothing happens where no entry is stored. An entry found expired is removed. A live
    /// entry expires at `now` where the owner asks, and `time_to_delete` later where another
    /// does; its content stays until a later access finds it expired.
    pub fn request_delete_at(
        &mut self,
        name: &str,
        presented: Option<&str>,
        now: DateTime,
        time_to_delete: Duration,
    )
        requires
            representable(now@ + time_to_delete@),
        ensures
            final(self)@ == after_request(
                old(self)@,
                name@,
                token(presented),
                now@,
                time_to_delete@,
            ),
            final(self).reserved() == old(self).reserved(),
    {
        let key = name.to_owned();
        match self.find(&key) {
            Some(at) => {
                let mut file = self.take(at);
                if is_live(file.metadata.delete_at, now) {
                    let delete_at = deletion_expiry(
                        file.metadata.owner.as_str(),
                        presented,
                        now,
                        time_to_delete,
                    );
                    file.metadata.delete_at = Some(delete_at);
                    self.put(file);
                    assert(self@ =~= after_request(
                        old(self)@,
                        name@,
                        token(presented),
                        now@,
                        time_to_delete@,
                    ));
                }
            },
            None => {},
        }
    }

    /// Tries to create an entry under the candidate `name`, after `collisions` collisions so
    /// far in this creation, and hands out the right to append to it.
    ///
    /// A free name is taken. A taken name is left alone while fewer than [`MAX_COLLISIONS`]
    /// collisions have occurred; after that it is taken over: the entry stored under it loses
    /// its content and gets the new owner and expiry, as if it were newly created.
    pub fn try_create(
        &mut self,
        name: &str,
        collisions: u32,
        owner: &str,
        delete_at: Option<DateTime>,
        now: DateTime,
    ) -> (attempt: (Attempt, Option<Sink>))
        ensures
            attempt.0 == attempted(old(self)@.contains_key(name@), collisions as nat),
            match attempt.1 {
                Some(sink) => attempt.0 != Attempt::Collision && sink@ == name@,
                None => attempt.0 == Attempt::Collision,
            },
            final(self)@ == if attempt.0 == Attempt::Collision {
                old(self)@
            } else {
                old(self)@.insert(name@, fresh(name@, owner@, now@, instant(delete_at)))
            },
            final(self).reserved() == old(self).reserved(),
    {
        let key = name.to_owned();
        let found = self.find(&key);
        let attempt = attempt_for(found.is_some(), collisions);
        if attempt == Attempt::Collision {
            return (attempt, None);
        }
        let file = File {
            name: key,
            contents: Contents::new(),
            metadata: Metadata { delete_at, owner: owner.to_owned() },
            created_at: now,
        };
        match found {
            Some(at) => {
                let _ = self.take(at);
                self.put(file);
                assert(self@ =~= old(self)@.insert(
                    name@,
                    fresh(name@, owner@, now@, instant(delete_at)),
                ));
            },
            None => {
                self.put(file);
            },
        }
        (attempt, Some(Sink { name: name.to_owned() }))
    }

    /// Creates an entry for `owner` at the instant that the clock gives, under a name
    /// allocated from [`NEW_FILE_DRAWS`] random words, and hands out the right to append to
    /// it.
    ///
    /// Whatever the clock and the random number generator give, the creation is one at that
    /// instant from those words. Returns `None`, with the store as it was, where the words
    /// run out before a name is allocated.
    pub fn new_file(&mut self, owner: String, ttl: Option<Duration>) -> (sink: Option<Sink>)
        ensures
            final(self).reserved() == old(self).reserved(),
            exists|draws: Seq<u32>, now: int|
                #![trigger allocated(old(self)@.dom(), old(self).reserved(), draws, 0), clocked(now)]
                {
                    &&& draws.len() == NEW_FILE_DRAWS
                    &&& clocked(now)
                    &&& match allocated(old(self)@.dom(), old(self).reserved(), draws, 0).0 {
                        Some(id) => sink matches Some(sink) && sink@ == id && final(self)@ == old(
                            self,
                        )@.insert(id, fresh(id, owner@, now, expiry_at_creation(now, span(ttl)))),
                        None => sink is None && final(self)@ == old(self)@,
                    }
                },
    {
        let mut rng = Draws::random(NEW_FILE_DRAWS);
        let now = DateTime::now();
        proof {
            if ttl is Some {
                lemma_clocked_plus(now@, ttl->0);
            }
        }
        let ghost draws = rng@;
        let sink = self.new_file_at(&mut rng, owner, ttl, now);
        assert(clocked(now@) && allocated(old(self)@.dom(), old(self).reserved(), draws, 0).1
            == rng@);
        sink
    }

    /// Creates an entry for `owner` at `now`, under a name allocated from `rng`, and hands
    /// out the right to append to it. The entry has no content yet, and expires `ttl` after
    /// `now` where a `ttl` is given.
    ///
    /// Returns `None`, with the store as it was, where `rng` runs out before a name is
    /// allocated.
    pub fn new_file_at(
        &mut self,
        rng: &mut Draws,
        owner: String,
        ttl: Option<Duration>,
        now: DateTime,
    ) -> (sink: Option<Sink>)
        requires
            ttl matches Some(ttl) ==> representable(now@ + ttl@),
        ensures
            final(rng)@ == allocated(old(self)@.dom(), old(self).reserved(), old(rng)@, 0).1,
            match allocated(old(self)@.dom(), old(self).reserved(), old(rng)@, 0).0 {
                Some(id) => sink matches Some(sink) && sink@ == id && final(self)@ == old(
                    self,
                )@.insert(id, fresh(id, owner@, now@, expiry_at_creation(now@, span(ttl)))),
                None => sink is None && final(self)@ == old(self)@,
            },
            final(self).reserved() == old(self).reserved(),
    {
        let delete_at = creation_expiry(now, ttl);
        let mut collisions: u32 = 0;
        loop
            invariant
                collisions <= MAX_COLLISIONS,
                self@ == old(self)@,
                self.reserved() == old(self).reserved(),
                instant(delete_at) == expiry_at_creation(now@, span(ttl)),
                allocated(self@.dom(), self.reserved(), rng@, collisions as nat) == allocated(
                    old(self)@.dom(),
                    old(self).reserved(),
                    old(rng)@,
                    0,
                ),
            decreases MAX_COLLISIONS - collisions,
        {
            let name = match candidate_name(rng, &self.reserved) {
                Some(name) => name,
                None => {
                    return None;
                },
            };
            match self.try_create(name.as_str(), collisions, owner.as_str(), delete_at, now).1 {
                Some(sink) => {
                    return Some(sink);
                },
                None => {
                    collisions = collisions + 1;
                },
            }
        }
    }

    /// Sets the expiry of the entry `name`, where one is stored.
    pub fn delete_at(&mut self, name: &str, delete_at: DateTime)
        ensures
            final(self)@ == if old(self)@.contains_key(name@) {
                old(self)@.insert(
                    name@,
                    Entry { delete_at: Some(delete_at@), ..old(self)@[name@] },
                )
            } else {
                old(self)@
            },
            final(self).reserved() == old(self).reserved(),
    {
        let key = name.to_owned();
        match self.find(&key) {
            Some(at) => {
                let mut file = self.take(at);
                file.metadata.delete_at = Some(delete_at);
                self.put(file);
                assert(self@ =~= old(self)@.insert(
                    name@,
                    Entry { delete_at: Some(delete_at@), ..old(self)@[name@] },
                ));
            },
            None => {},
        }
    }
}

} // verus!
