use vstd::prelude::*;
use crate::data::{extended_until, PERSISTENCY_SECS};
use crate::key::{blake2b_of, concat, hex_of};
use crate::store::{
    after_get, after_has_key, after_store, get_removes_file, integrity_ok, reconciled, state_of,
    store_writes, FileState, FileTime,
};

verus! {

/// A content yields one key wherever it is read from: two chunkings whose
/// bytes join to the same content hash to the same digest.
pub proof fn content_addressing(c1: Seq<Vec<u8>>, c2: Seq<Vec<u8>>)
    requires
        concat(c1) == concat(c2),
    ensures
        blake2b_of(concat(c1)) == blake2b_of(concat(c2)),
{
}

/// After a store, a get that finds the file intact keeps the entry,
/// extends it, and the store wrote the file unless it was already intact.
pub proof fn store_then_get(
    m: Map<Seq<char>, i64>,
    hex: Seq<char>,
    state: FileState,
    t1: i64,
    t2: i64,
)
    ensures
        after_store(m, hex, state, t1).contains_key(hex),
        after_get(after_store(m, hex, state, t1), hex, FileState::Intact, t2) == after_store(
            m,
            hex,
            state,
            t1,
        ).insert(hex, extended_until(t2)),
{
}

/// Storing again a key whose file is there and intact writes nothing: the
/// first store leaves the entry, and the second only extends it.
pub proof fn store_is_idempotent(
    m: Map<Seq<char>, i64>,
    hex: Seq<char>,
    state: FileState,
    t1: i64,
    t2: i64,
)
    ensures
        after_store(m, hex, state, t1).contains_key(hex),
        !store_writes(FileState::Intact),
        after_store(after_store(m, hex, state, t1), hex, FileState::Intact, t2)
            == after_store(m, hex, state, t1).insert(hex, extended_until(t2)),
{
}

/// A stored content overwritten in place by another, with the file's
/// modification time moved off its creation time, fails the integrity
/// check; a get then reports it absent, asks for the file to be deleted,
/// drops its entry and has the mirror written out. The one assumption is
/// that the two contents have different digests.
pub proof fn corruption_is_evicted(
    m: Map<Seq<char>, i64>,
    content: Seq<u8>,
    overwritten: Seq<u8>,
    created: Option<FileTime>,
    modified: Option<FileTime>,
    t1: i64,
    t2: i64,
)
    requires
        created != modified || created is None,
        blake2b_of(overwritten) != blake2b_of(content),
    ensures
        ({
            let key = blake2b_of(content);
            let hex = hex_of(key);
            let state = state_of(
                true,
                integrity_ok(key, created, modified, Some(blake2b_of(overwritten))),
            );
            &&& after_store(m, hex, FileState::Missing, t1).contains_key(hex)
            &&& state == FileState::Corrupted
            &&& get_removes_file(state)
            &&& !after_get(after_store(m, hex, FileState::Missing, t1), hex, state, t2).contains_key(
                hex,
            )
        }),
{
}

/// Loading the mirror drops every entry whose file is missing.
pub proof fn reconciliation_drops_missing(
    entries: Seq<(String, i64)>,
    present: Seq<bool>,
    k: Seq<char>,
)
    requires
        present.len() == entries.len(),
        forall|i: int| 0 <= i < entries.len() && #[trigger] entries[i].0@ == k ==> !present[i],
    ensures
        !reconciled(entries, present).contains_key(k),
    decreases entries.len(),
{
    if entries.len() > 0 {
        let n = entries.len() - 1;
        let p = present.subrange(0, n);
        assert forall|i: int| 0 <= i < entries.drop_last().len() && #[trigger] entries.drop_last()[i].0@
            == k implies !p[i] by {
            assert(entries[i].0@ == k);
        }
        reconciliation_drops_missing(entries.drop_last(), p, k);
        if entries[n].0@ == k {
            assert(!present[n]);
        }
    }
}

/// A probe of an intact entry leaves the mirror, and so the entry's
/// lifetime, as it was; a get of the same entry sets the lifetime to the
/// persistency window after the current time, which changes it whenever it
/// was shorter.
pub proof fn probe_keeps_lifetime(m: Map<Seq<char>, i64>, hex: Seq<char>, now: i64)
    requires
        m.contains_key(hex),
        now <= i64::MAX - PERSISTENCY_SECS,
    ensures
        after_has_key(m, hex, FileState::Intact) == m,
        after_get(m, hex, FileState::Intact, now)[hex] == now + PERSISTENCY_SECS,
        m[hex] < now + PERSISTENCY_SECS ==> after_get(m, hex, FileState::Intact, now)[hex] > m[hex],
{
}

} // verus!
