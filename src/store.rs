use vstd::prelude::*;
use crate::data::{extended_until, FileStoreData, FileStoreItem};
use crate::key::{hex_of, shard_of, FileStoreKey, ShardPath};

verus! {

/// Relies on `chrono::Utc::now`: the current time, in whole seconds since
/// the Unix epoch. Nothing is known of the value.
#[verifier::external_body]
fn now_timestamp() -> (r: i64) {
    chrono::Utc::now().timestamp()
}

/// Errors of the store's operations.
#[derive(Clone, Copy, Debug, PartialEq, Eq, Structural)]
pub enum FileStoreError {
    /// A path that does not name a file of the store.
    InvalidPath,
    /// The key has no file in the store.
    NotFound,
}

/// What the host found at the path of a key.
#[derive(Clone, Copy, Debug, PartialEq, Eq, Structural)]
pub enum FileState {
    /// There is no file.
    Missing,
    /// There is a file and it failed the integrity check.
    Corrupted,
    /// There is a file and it passed the integrity check.
    Intact,
}

/// A filesystem timestamp: seconds and nanoseconds since the Unix epoch.
#[derive(Clone, Copy, Debug, PartialEq, Eq, Structural)]
pub struct FileTime {
    pub secs: u64,
    pub nanos: u32,
}

/// The state of a key's path given whether a file is there and whether it
/// passed the integrity check.
pub open spec fn state_of(exists: bool, intact: bool) -> FileState {
    if !exists {
        FileState::Missing
    } else if intact {
        FileState::Intact
    } else {
        FileState::Corrupted
    }
}

/// A file is taken as intact when its creation and modification times are
/// both known and equal, or else when its content hashes to its key again.
pub open spec fn integrity_ok(
    key: Seq<u8>,
    created: Option<FileTime>,
    modified: Option<FileTime>,
    rehashed: Option<Seq<u8>>,
) -> bool {
    (created is Some && modified is Some && created == modified) || rehashed == Some(key)
}

/// The mirror after a `has_key` probe: an entry whose file is missing or
/// corrupted is dropped; an intact one is left as it was.
pub open spec fn after_has_key(m: Map<Seq<char>, i64>, hex: Seq<char>, state: FileState) -> Map<
    Seq<char>,
    i64,
> {
    if state == FileState::Intact {
        m
    } else {
        m.remove(hex)
    }
}

/// Whether a probe changes the mirror, so that it must be written out: an
/// entry is there and its file is not intact.
pub open spec fn probe_changes(m: Map<Seq<char>, i64>, hex: Seq<char>, state: FileState) -> bool {
    state != FileState::Intact && m.contains_key(hex)
}

/// Whether a `get` must delete the file: it failed the integrity check.
pub open spec fn get_removes_file(state: FileState) -> bool {
    state == FileState::Corrupted
}

/// The mirror after a `get`: an entry without an intact file is dropped, an
/// intact one is extended.
pub open spec fn after_get(m: Map<Seq<char>, i64>, hex: Seq<char>, state: FileState, now: i64) -> Map<
    Seq<char>,
    i64,
> {
    if state == FileState::Intact {
        m.insert(hex, extended_until(now))
    } else {
        m.remove(hex)
    }
}

/// Whether a `store` must write the content: unless an intact file is
/// there already.
pub open spec fn store_writes(state: FileState) -> bool {
    state != FileState::Intact
}

/// The mirror after a `store`: the probe first, then the entry is created
/// or extended.
pub open spec fn after_store(m: Map<Seq<char>, i64>, hex: Seq<char>, state: FileState, now: i64) -> Map<
    Seq<char>,
    i64,
> {
    after_has_key(m, hex, state).insert(hex, extended_until(now))
}

/// The mirror after a `persist`: extended when the file exists, else as it
/// was.
pub open spec fn after_persist(m: Map<Seq<char>, i64>, hex: Seq<char>, exists: bool, now: i64) -> Map<
    Seq<char>,
    i64,
> {
    if exists {
        m.insert(hex, extended_until(now))
    } else {
        m
    }
}

/// The mirror loaded from the metadata file, keeping only the entries whose
/// file is present and whose name is long enough to have a shard; a later
/// entry with the same name overrides an earlier one.
pub open spec fn reconciled(entries: Seq<(String, i64)>, present: Seq<bool>) -> Map<Seq<char>, i64>
    decreases entries.len(),
{
    if entries.len() == 0 {
        Map::empty()
    } else {
        let rest = reconciled(entries.drop_last(), present.subrange(0, entries.len() - 1));
        let (k, v) = entries.last();
        if present[entries.len() - 1] && k@.len() >= 4 {
            rest.insert(k@, v)
        } else {
            rest
        }
    }
}

/// What a `get` asks of the host besides returning the path.
pub struct GetOutcome {
    /// The path of the file, when it is there and intact.
    pub path: Option<ShardPath>,
    /// The corrupted file must be deleted.
    pub remove_file: bool,
    /// The mirror must be written out.
    pub flush: bool,
}

/// What a `has_key` probe found and asks of the host.
pub struct HasKeyOutcome {
    /// The file is there and intact.
    pub present: bool,
    /// The corrupted file must be deleted.
    pub remove_file: bool,
    /// The mirror changed and must be written out.
    pub flush: bool,
}

/// What a `store` asks of the host. The mirror is always written out
/// afterwards.
pub struct StorePlan {
    /// The corrupted file must be deleted first.
    pub remove_file: bool,
    /// The content must be written to the key's path and the file made
    /// read-only; otherwise the content is drained unwritten.
    pub write: bool,
}

/// The store's bookkeeping: the metadata mirror, kept consistent with what
/// the host observes on disk.
pub struct FileStore {
    data: FileStoreData,
}

impl View for FileStore {
    type V = Map<Seq<char>, i64>;

    closed spec fn view(&self) -> Map<Seq<char>, i64> {
        self.data@
    }
}

fn same_hash(a: &FileStoreKey, b: &FileStoreKey) -> (r: bool)
    ensures
        r == (a@ == b@),
{
    let x = a.hash_bytes();
    let y = b.hash_bytes();
    if x.len() != y.len() {
        return false;
    }
    let mut i: usize = 0;
    while i < x.len()
        invariant
            x@ == a@,
            y@ == b@,
            x@.len() == y@.len(),
            i <= x@.len(),
            forall|j: int| 0 <= j < i ==> x@[j] == y@[j],
        decreases x.len() - i,
    {
        if x[i] != y[i] {
            return false;
        }
        i = i + 1;
    }
    assert(x@ =~= y@);
    true
}

impl FileStore {
    pub closed spec fn wf(&self) -> bool {
        self.data.wf()
    }

    /// Opens the bookkeeping over the entries read from the metadata file;
    /// `present[i]` tells whether the file of entry `i` exists. Entries
    /// without a file are dropped.
    pub fn new(entries: Vec<(String, i64)>, present: &Vec<bool>) -> (r: FileStore)
        requires
            present@.len() == entries@.len(),
        ensures
            r.wf(),
            r@ == reconciled(entries@, present@),
    {
        FileStore { data: FileStore::read_store_file(&entries, present) }
    }

    fn read_store_file(entries: &Vec<(String, i64)>, present: &Vec<bool>) -> (r: FileStoreData)
        requires
            present@.len() == entries@.len(),
        ensures
            r.wf(),
            r@ == reconciled(entries@, present@),
    {
        let mut data = FileStoreData::new();
        let mut i: usize = 0;
        while i < entries.len()
            invariant
                i <= entries@.len(),
                present@.len() == entries@.len(),
                data.wf(),
                data@ == reconciled(entries@.subrange(0, i as int), present@.subrange(0, i as int)),
            decreases entries.len() - i,
        {
            let (k, v) = &entries[i];
            if present[i] && k.as_str().unicode_len() >= 4 {
                data.set(k, FileStoreItem { persistent: *v });
            }
            proof {
                let e = entries@.subrange(0, i + 1);
                let p = present@.subrange(0, i + 1);
                assert(e.drop_last() =~= entries@.subrange(0, i as int));
                assert(p.subrange(0, i as int) =~= present@.subrange(0, i as int));
            }
            i = i + 1;
        }
        assert(entries@.subrange(0, i as int) =~= entries@);
        assert(present@.subrange(0, i as int) =~= present@);
        data
    }

    /// Whether the mirror has an entry for `key`.
    pub fn contains(&self, key: &FileStoreKey) -> (r: bool)
        requires
            self.wf(),
        ensures
            r == self@.contains_key(hex_of(key@)),
    {
        self.data.contains(&key.to_string())
    }

    /// The timestamp until which the file of `key` is kept, if it has an
    /// entry.
    pub fn persistent_of(&self, key: &FileStoreKey) -> (r: Option<i64>)
        requires
            self.wf(),
        ensures
            r == (if self@.contains_key(hex_of(key@)) {
                Some(self@[hex_of(key@)])
            } else {
                None::<i64>
            }),
    {
        self.data.persistent_of(&key.to_string())
    }

    /// Path of the file of `key` below the base directory.
    pub fn key_to_path(&self, key: &FileStoreKey) -> (r: ShardPath)
        requires
            key@.len() >= 2,
        ensures
            r.parts() == shard_of(hex_of(key@)),
    {
        key.shard_path()
    }

    /// Whether the file stored under `key` is intact: the fast test on its
    /// creation and modification times, else the key of its current content
    /// (`None` where it could not be read).
    pub fn check_integrity(
        key: &FileStoreKey,
        created: Option<FileTime>,
        modified: Option<FileTime>,
        rehashed: Option<&FileStoreKey>,
    ) -> (r: bool)
        ensures
            r == integrity_ok(
                key@,
                created,
                modified,
                match rehashed {
                    Some(k) => Some(k@),
                    None => None,
                },
            ),
    {
        match (created, modified) {
            (Some(c), Some(m)) => {
                if c == m {
                    return true;
                }
            },
            _ => {},
        }
        match rehashed {
            Some(k) => same_hash(k, key),
            None => false,
        }
    }

    /// The probe of `key`, given the state of its file: true when the file is
    /// there and intact. The entry of a missing or corrupted file is dropped,
    /// and the mirror must then be written out; a corrupted file must be
    /// deleted. The lifetime of the entry is not extended.
    pub fn has_key(&mut self, key: &FileStoreKey, state: FileState) -> (r: HasKeyOutcome)
        requires
            old(self).wf(),
        ensures
            final(self).wf(),
            final(self)@ == after_has_key(old(self)@, hex_of(key@), state),
            r.present == (state == FileState::Intact),
            r.remove_file == (state == FileState::Corrupted),
            r.flush == probe_changes(old(self)@, hex_of(key@), state),
    {
        match state {
            FileState::Intact => HasKeyOutcome { present: true, remove_file: false, flush: false },
            _ => {
                let removed = self.data.remove(&key.to_string());
                HasKeyOutcome {
                    present: false,
                    remove_file: state == FileState::Corrupted,
                    flush: removed.is_some(),
                }
            },
        }
    }

    /// Looks `key` up at time `now`, given the state of its file. A missing
    /// file drops the entry; a corrupted one drops the entry and the file
    /// must be deleted; an intact one has its entry extended and its path
    /// returned. The mirror must be written out in every case.
    pub fn get_at(&mut self, key: &FileStoreKey, state: FileState, now: i64) -> (r: GetOutcome)
        requires
            old(self).wf(),
            key@.len() >= 2,
        ensures
            final(self).wf(),
            final(self)@ == after_get(old(self)@, hex_of(key@), state, now),
            r.path is Some == (state == FileState::Intact),
            r.path matches Some(p) ==> p.parts() == shard_of(hex_of(key@)),
            r.remove_file == get_removes_file(state),
            r.flush,
    {
        let hex = key.to_string();
        match state {
            FileState::Missing => {
                self.data.remove(&hex);
                GetOutcome { path: None, remove_file: false, flush: true }
            },
            FileState::Corrupted => {
                self.data.remove(&hex);
                GetOutcome { path: None, remove_file: true, flush: true }
            },
            FileState::Intact => {
                self.data.persist(&hex, now);
                GetOutcome { path: Some(self.key_to_path(key)), remove_file: false, flush: true }
            },
        }
    }

    /// `get_at` at the current time.
    pub fn get(&mut self, key: &FileStoreKey, state: FileState) -> (r: GetOutcome)
        requires
            old(self).wf(),
            key@.len() >= 2,
        ensures
            final(self).wf(),
            exists|now: i64| final(self)@ == after_get(old(self)@, hex_of(key@), state, now),
            r.path is Some == (state == FileState::Intact),
            r.path matches Some(p) ==> p.parts() == shard_of(hex_of(key@)),
            r.remove_file == get_removes_file(state),
            r.flush,
    {
        let now = now_timestamp();
        self.get_at(key, state, now)
    }

    /// Stores `key` at time `now`, given the state of its file. The probe
    /// runs first; unless the file is there and intact, the content must be
    /// written. Either way the entry is created or extended.
    pub fn store_at(&mut self, key: &FileStoreKey, state: FileState, now: i64) -> (r: StorePlan)
        requires
            old(self).wf(),
        ensures
            final(self).wf(),
            final(self)@ == after_store(old(self)@, hex_of(key@), state, now),
            r.remove_file == (state == FileState::Corrupted),
            r.write == store_writes(state),
    {
        let probe = self.has_key(key, state);
        self.data.persist(&key.to_string(), now);
        StorePlan { remove_file: probe.remove_file, write: !probe.present }
    }

    /// `store_at` at the current time.
    pub fn store(&mut self, key: &FileStoreKey, state: FileState) -> (r: StorePlan)
        requires
            old(self).wf(),
        ensures
            final(self).wf(),
            exists|now: i64| final(self)@ == after_store(old(self)@, hex_of(key@), state, now),
            r.remove_file == (state == FileState::Corrupted),
            r.write == store_writes(state),
    {
        let now = now_timestamp();
        self.store_at(key, state, now)
    }

    /// Extends the lifetime of `key` at time `now`; `exists` tells whether
    /// its file is there. Fails with `NotFound`, changing nothing, when it is
    /// not.
    pub fn persist_at(&mut self, key: &FileStoreKey, exists: bool, now: i64) -> (r: Result<
        (),
        FileStoreError,
    >)
        requires
            old(self).wf(),
        ensures
            final(self).wf(),
            final(self)@ == after_persist(old(self)@, hex_of(key@), exists, now),
            r is Ok <==> exists,
            r is Err ==> r == Err::<(), FileStoreError>(FileStoreError::NotFound),
    {
        if !exists {
            return Err(FileStoreError::NotFound);
        }
        self.data.persist(&key.to_string(), now);
        Ok(())
    }

    /// `persist_at` at the current time.
    pub fn persist(&mut self, key: &FileStoreKey, exists: bool) -> (r: Result<(), FileStoreError>)
        requires
            old(self).wf(),
        ensures
            final(self).wf(),
            exists|now: i64| final(self)@ == after_persist(old(self)@, hex_of(key@), exists, now),
            r is Ok <==> exists,
            r is Err ==> r == Err::<(), FileStoreError>(FileStoreError::NotFound),
    {
        let now = now_timestamp();
        self.persist_at(key, exists, now)
    }

    /// The mirror's entries to be written to the metadata file, each key
    /// once.
    pub fn flush(&self) -> (r: Vec<(String, i64)>)
        requires
            self.wf(),
        ensures
            forall|i: int, j: int| 0 <= i < j < r@.len() ==> r@[i].0@ != r@[j].0@,
            forall|i: int| 0 <= i < r@.len() ==> #[trigger] self@.contains_key(r@[i].0@)
                && self@[r@[i].0@] == r@[i].1,
            forall|k: Seq<char>| #[trigger] self@.contains_key(k) ==> exists|i: int|
                0 <= i < r@.len() && #[trigger] r@[i].0@ == k,
    {
        self.data.entries()
    }
}

} // verus!
