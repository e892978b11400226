use vstd::prelude::*;

verus! {

/// Seconds an entry is kept after each access that extends it.
pub const PERSISTENCY_SECS: i64 = 600;

/// When an entry accessed at `now` may be reclaimed: `now` plus the
/// persistency window, capped at the largest timestamp.
pub open spec fn extended_until(now: i64) -> i64 {
    if now <= i64::MAX - PERSISTENCY_SECS {
        (now + PERSISTENCY_SECS) as i64
    } else {
        i64::MAX
    }
}

/// The bookkeeping of one stored file.
#[derive(Clone, Copy, Debug, PartialEq, Eq, Structural)]
pub struct FileStoreItem {
    /// Timestamp, in seconds since the Unix epoch, until which the file
    /// must be kept.
    pub persistent: i64,
}

impl FileStoreItem {
    /// An item that must be kept for the persistency window after `now`.
    pub fn new(now: i64) -> (r: FileStoreItem)
        ensures
            r.persistent == extended_until(now),
    {
        let mut r = FileStoreItem { persistent: now };
        r.persist(now);
        r
    }

    /// Extends the item to the persistency window after `now`.
    pub fn persist(&mut self, now: i64)
        ensures
            final(self).persistent == extended_until(now),
    {
        self.persistent = if now <= i64::MAX - PERSISTENCY_SECS {
            now + PERSISTENCY_SECS
        } else {
            i64::MAX
        };
    }
}

/// The metadata mirror: for each known key, in canonical hex form, the
/// timestamp until which its file is kept.
pub struct FileStoreData {
    items: Vec<(String, FileStoreItem)>,
    mirror: Ghost<Map<Seq<char>, i64>>,
}

impl View for FileStoreData {
    type V = Map<Seq<char>, i64>;

    closed spec fn view(&self) -> Map<Seq<char>, i64> {
        self.mirror@
    }
}

impl FileStoreData {
    /// The entries are stored once each and agree with the mirror.
    pub closed spec fn wf(&self) -> bool {
        &&& forall|i: int, j: int|
            0 <= i < j < self.items@.len() ==> self.items@[i].0@ != self.items@[j].0@
        &&& forall|i: int|
            0 <= i < self.items@.len() ==> #[trigger] self.mirror@.contains_key(self.items@[i].0@)
                && self.mirror@[self.items@[i].0@] == self.items@[i].1.persistent
        &&& forall|k: Seq<char>|
            #[trigger] self.mirror@.contains_key(k) ==> exists|i: int|
                0 <= i < self.items@.len() && #[trigger] self.items@[i].0@ == k
    }

    /// An empty mirror.
    pub fn new() -> (r: FileStoreData)
        ensures
            r.wf(),
            r@ == Map::<Seq<char>, i64>::empty(),
    {
        FileStoreData { items: Vec::new(), mirror: Ghost(Map::empty()) }
    }

    fn find(&self, key: &String) -> (r: Option<usize>)
        requires
            self.wf(),
        ensures
            r matches Some(i) ==> i < self.items@.len() && self.items@[i as int].0@ == key@,
            r is None ==> !self@.contains_key(key@),
    {
        let mut i: usize = 0;
        while i < self.items.len()
            invariant
                i <= self.items@.len(),
                forall|j: int| 0 <= j < i ==> self.items@[j].0@ != key@,
            decreases self.items.len() - i,
        {
            if self.items[i].0 == *key {
                return Some(i);
            }
            i = i + 1;
        }
        None
    }

    /// Whether the mirror has an entry for `key`.
    pub fn contains(&self, key: &String) -> (r: bool)
        requires
            self.wf(),
        ensures
            r == self@.contains_key(key@),
    {
        self.find(key).is_some()
    }

    /// The timestamp recorded for `key`, if any.
    pub fn persistent_of(&self, key: &String) -> (r: Option<i64>)
        requires
            self.wf(),
        ensures
            r == (if self@.contains_key(key@) { Some(self@[key@]) } else { None::<i64> }),
    {
        match self.find(key) {
            Some(i) => Some(self.items[i].1.persistent),
            None => None,
        }
    }

    /// Sets the entry of `key`, creating it if needed, to `item`.
    pub fn set(&mut self, key: &String, item: FileStoreItem)
        requires
            old(self).wf(),
        ensures
            final(self).wf(),
            final(self)@ == old(self)@.insert(key@, item.persistent),
    {
        let ghost m = self.mirror@.insert(key@, item.persistent);
        let ghost before = self.items@;
        let ghost at: int;
        match self.find(key) {
            Some(i) => {
                self.items.set(i, (key.clone(), item));
                proof {
                    at = i as int;
                }
            },
            None => {
                self.items.push((key.clone(), item));
                proof {
                    at = before.len() as int;
                    assert forall|j: int| 0 <= j < before.len() implies before[j].0@ != key@ by {
                        assert(old(self).mirror@.contains_key(before[j].0@));
                    }
                }
            },
        }
        self.mirror = Ghost(m);
        assert(self.items@[at].0@ == key@);
        assert(forall|j: int| 0 <= j < self.items@.len() && j != at ==> self.items@[j] == before[j]);
        assert forall|k: Seq<char>| #[trigger] self.mirror@.contains_key(k) implies exists|i: int|
            0 <= i < self.items@.len() && #[trigger] self.items@[i].0@ == k by {
            if k != key@ {
                let i = choose|i: int| 0 <= i < before.len() && #[trigger] before[i].0@ == k;
                assert(self.items@[i].0@ == k);
            } else {
                assert(self.items@[at].0@ == k);
            }
        }
        assert forall|a: int| 0 <= a < self.items@.len() implies #[trigger] self.mirror@.contains_key(
            self.items@[a].0@) && self.mirror@[self.items@[a].0@] == self.items@[a].1.persistent by {
            if a != at {
                assert(old(self).mirror@.contains_key(before[a].0@));
            }
        }
    }

    /// Creates or extends the entry of `key` to the persistency window after
    /// `now`.
    pub fn persist(&mut self, key: &String, now: i64)
        requires
            old(self).wf(),
        ensures
            final(self).wf(),
            final(self)@ == old(self)@.insert(key@, extended_until(now)),
    {
        let item = FileStoreItem::new(now);
        self.set(key, item);
    }

    /// Drops the entry of `key`, returning it. The file itself is not
    /// touched.
    pub fn remove(&mut self, key: &String) -> (r: Option<FileStoreItem>)
        requires
            old(self).wf(),
        ensures
            final(self).wf(),
            final(self)@ == old(self)@.remove(key@),
            r matches Some(it) ==> old(self)@.contains_key(key@) && it.persistent == old(self)@[key@],
            r is None ==> !old(self)@.contains_key(key@),
    {
        match self.find(key) {
            Some(i) => {
                let ghost m = self.mirror@.remove(key@);
                let ghost before = self.items@;
                let (_, item) = self.items.remove(i);
                self.mirror = Ghost(m);
                assert(forall|j: int| 0 <= j < i ==> self.items@[j] == before[j]);
                assert(forall|j: int| i <= j < self.items@.len() ==> self.items@[j] == before[j + 1]);
                assert(old(self).mirror@.contains_key(before[i as int].0@));
                assert forall|a: int, b: int| 0 <= a < b < self.items@.len() implies self.items@[a].0@
                    != self.items@[b].0@ by {
                    let a0 = if a < i { a } else { a + 1 };
                    let b0 = if b < i { b } else { b + 1 };
                    assert(self.items@[a] == before[a0]);
                    assert(self.items@[b] == before[b0]);
                }
                assert forall|a: int| 0 <= a < self.items@.len() implies #[trigger] self.mirror@.contains_key(
                    self.items@[a].0@) && self.mirror@[self.items@[a].0@] == self.items@[a].1.persistent by {
                    let a0 = if a < i { a } else { a + 1 };
                    assert(self.items@[a] == before[a0]);
                    assert(old(self).mirror@.contains_key(before[a0].0@));
                }
                assert forall|k: Seq<char>| #[trigger] self.mirror@.contains_key(k) implies exists|j: int|
                    0 <= j < self.items@.len() && #[trigger] self.items@[j].0@ == k by {
                    let j = choose|j: int| 0 <= j < before.len() && #[trigger] before[j].0@ == k;
                    assert(j != i);
                    if j < i {
                        assert(self.items@[j].0@ == k);
                    } else {
                        assert(self.items@[j - 1].0@ == k);
                    }
                }
                Some(item)
            },
            None => None,
        }
    }

    /// The entries, each key once, for writing the mirror out.
    pub fn entries(&self) -> (r: Vec<(String, i64)>)
        requires
            self.wf(),
        ensures
            forall|i: int, j: int| 0 <= i < j < r@.len() ==> r@[i].0@ != r@[j].0@,
            forall|i: int| 0 <= i < r@.len() ==> #[trigger] self@.contains_key(r@[i].0@)
                && self@[r@[i].0@] == r@[i].1,
            forall|k: Seq<char>| #[trigger] self@.contains_key(k) ==> exists|i: int|
                0 <= i < r@.len() && #[trigger] r@[i].0@ == k,
    {
        let mut r: Vec<(String, i64)> = Vec::new();
        let mut i: usize = 0;
        while i < self.items.len()
            invariant
                i <= self.items@.len(),
                r@.len() == i,
                forall|j: int| 0 <= j < i ==> #[trigger] r@[j].0@ == self.items@[j].0@
                    && r@[j].1 == self.items@[j].1.persistent,
            decreases self.items.len() - i,
        {
            r.push((self.items[i].0.clone(), self.items[i].1.persistent));
            i = i + 1;
        }
        assert forall|a: int, b: int| 0 <= a < b < r@.len() implies r@[a].0@ != r@[b].0@ by {
            assert(r@[a].0@ == self.items@[a].0@);
            assert(r@[b].0@ == self.items@[b].0@);
        }
        assert forall|k: Seq<char>| #[trigger] self@.contains_key(k) implies exists|j: int|
            0 <= j < r@.len() && #[trigger] r@[j].0@ == k by {
            let j = choose|j: int| 0 <= j < self.items@.len() && #[trigger] self.items@[j].0@ == k;
            assert(r@[j].0@ == k);
        }
        r
    }
}

} // verus!
