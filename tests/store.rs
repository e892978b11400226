use task_maker_store::{
    FileState, FileStore, FileStoreData, FileStoreError, FileStoreItem, FileStoreKey, FileTime,
    ShardPath,
};

fn key_of(parts: &[&[u8]]) -> FileStoreKey {
    let chunks: Vec<Vec<u8>> = parts.iter().map(|p| p.to_vec()).collect();
    FileStoreKey::from_chunks(&chunks)
}

fn hello() -> FileStoreKey {
    key_of(&[b"hello world"])
}

#[test]
fn empty_content_has_the_blake2b_digest() {
    let key = key_of(&[]);
    assert_eq!(
        key.to_string(),
        "786a02f742015903c6c6fd852552d272912f4740e15847618a86e217f71f5419\
         d25e1031afee585313896444934eb04b903a685b1448b755d56f701afe9be2ce"
    );
}

#[test]
fn key_is_independent_of_chunking() {
    let a = key_of(&[b"hello world"]);
    let b = key_of(&[b"hello", b" ", b"world"]);
    let c = key_of(&[b"", b"hello wor", b"ld", b""]);
    assert_eq!(a.to_string(), b.to_string());
    assert_eq!(a.to_string(), c.to_string());
    assert_eq!(a.hash_bytes(), b.hash_bytes());
}

#[test]
fn different_contents_have_different_keys() {
    let a = key_of(&[b"hello world"]);
    let b = key_of(&[b"hello worle"]);
    assert_ne!(a.to_string(), b.to_string());
}

#[test]
fn key_text_is_lowercase_hex_of_the_digest() {
    let key = hello();
    let text = key.to_string();
    assert_eq!(key.hash_bytes().len(), 64);
    assert_eq!(text.len(), 128);
    let expected: String = key.hash_bytes().iter().map(|b| format!("{:02x}", b)).collect();
    assert_eq!(text, expected);
}

#[test]
fn shard_path_uses_the_first_two_bytes() {
    let key = hello();
    let text = key.to_string();
    let store = FileStore::new(vec![], &vec![]);
    let path = store.key_to_path(&key);
    assert_eq!(path.first, text[0..2]);
    assert_eq!(path.second, text[2..4]);
    assert_eq!(path.name, text);
}

#[test]
fn shard_of_hex_names() {
    assert!(ShardPath::of_hex(&"abc".to_string()).is_none());
    assert!(ShardPath::of_hex(&"".to_string()).is_none());
    let p = ShardPath::of_hex(&"abcdef".to_string()).unwrap();
    assert_eq!(p.first, "ab");
    assert_eq!(p.second, "cd");
    assert_eq!(p.name, "abcdef");
}

#[test]
fn item_persistency_window() {
    assert_eq!(FileStoreItem::new(1000).persistent, 1600);
    let mut item = FileStoreItem::new(0);
    item.persist(5000);
    assert_eq!(item.persistent, 5600);
    item.persist(i64::MAX - 10);
    assert_eq!(item.persistent, i64::MAX);
    item.persist(-700);
    assert_eq!(item.persistent, -100);
}

#[test]
fn data_set_persist_remove() {
    let mut data = FileStoreData::new();
    let k = "aabbcc".to_string();
    assert!(!data.contains(&k));
    data.persist(&k, 100);
    assert_eq!(data.persistent_of(&k), Some(700));
    data.persist(&k, 200);
    assert_eq!(data.persistent_of(&k), Some(800));
    assert_eq!(data.entries(), vec![(k.clone(), 800)]);
    assert_eq!(data.remove(&k).map(|i| i.persistent), Some(800));
    assert!(data.remove(&k).is_none());
    assert!(data.entries().is_empty());
}

#[test]
fn round_trip_store_then_get() {
    let key = hello();
    let mut store = FileStore::new(vec![], &vec![]);
    let plan = store.store_at(&key, FileState::Missing, 1000);
    assert!(plan.write);
    assert!(!plan.remove_file);
    assert_eq!(store.persistent_of(&key), Some(1600));
    let out = store.get_at(&key, FileState::Intact, 2000);
    let path = out.path.unwrap();
    assert_eq!(path.name, key.to_string());
    assert!(out.flush);
    assert!(!out.remove_file);
    assert_eq!(store.persistent_of(&key), Some(2600));
}

#[test]
fn second_store_writes_nothing() {
    let key = hello();
    let mut store = FileStore::new(vec![], &vec![]);
    assert!(store.store_at(&key, FileState::Missing, 10).write);
    let plan = store.store_at(&key, FileState::Intact, 20);
    assert!(!plan.write);
    assert!(!plan.remove_file);
    assert_eq!(store.persistent_of(&key), Some(620));
    assert_eq!(store.flush().len(), 1);
}

#[test]
fn store_over_corrupted_file_rewrites_it() {
    let key = hello();
    let mut store = FileStore::new(vec![], &vec![]);
    store.store_at(&key, FileState::Missing, 10);
    let plan = store.store_at(&key, FileState::Corrupted, 30);
    assert!(plan.write);
    assert!(plan.remove_file);
    assert_eq!(store.persistent_of(&key), Some(630));
}

#[test]
fn corrupted_file_is_evicted_on_get() {
    let key = hello();
    let other = key_of(&[b"hello there"]);
    let mut store = FileStore::new(vec![], &vec![]);
    store.store_at(&key, FileState::Missing, 10);
    let created = Some(FileTime { secs: 100, nanos: 5 });
    let modified = Some(FileTime { secs: 200, nanos: 0 });
    let intact = FileStore::check_integrity(&key, created, modified, Some(&other));
    assert!(!intact);
    let out = store.get_at(&key, FileState::Corrupted, 20);
    assert!(out.path.is_none());
    assert!(out.remove_file);
    assert!(out.flush);
    assert!(!store.contains(&key));
    assert!(store.flush().is_empty());
}

#[test]
fn missing_file_drops_entry_on_get() {
    let key = hello();
    let mut store = FileStore::new(vec![], &vec![]);
    store.store_at(&key, FileState::Missing, 10);
    let out = store.get_at(&key, FileState::Missing, 20);
    assert!(out.path.is_none());
    assert!(!out.remove_file);
    assert!(out.flush);
    assert!(!store.contains(&key));
}

#[test]
fn integrity_check_paths() {
    let key = hello();
    let other = key_of(&[b"x"]);
    let t = FileTime { secs: 7, nanos: 9 };
    let u = FileTime { secs: 7, nanos: 10 };
    assert!(FileStore::check_integrity(&key, Some(t), Some(t), None));
    assert!(FileStore::check_integrity(&key, Some(t), Some(u), Some(&hello())));
    assert!(!FileStore::check_integrity(&key, Some(t), Some(u), Some(&other)));
    assert!(!FileStore::check_integrity(&key, Some(t), Some(u), None));
    assert!(!FileStore::check_integrity(&key, None, None, None));
    assert!(FileStore::check_integrity(&key, None, Some(u), Some(&hello())));
}

#[test]
fn startup_drops_entries_without_file() {
    let a = hello().to_string();
    let b = key_of(&[b"b"]).to_string();
    let entries = vec![(a.clone(), 100), (b.clone(), 200), ("ab".to_string(), 300)];
    let store = FileStore::new(entries, &vec![false, true, true]);
    let flushed = store.flush();
    assert_eq!(flushed, vec![(b, 200)]);
}

#[test]
fn persist_unknown_key_is_not_found() {
    let key = hello();
    let mut store = FileStore::new(vec![], &vec![]);
    assert_eq!(store.persist_at(&key, false, 10), Err(FileStoreError::NotFound));
    assert!(!store.contains(&key));
    store.store_at(&key, FileState::Missing, 10);
    assert_eq!(store.persist_at(&key, false, 50), Err(FileStoreError::NotFound));
    assert_eq!(store.persistent_of(&key), Some(610));
    assert_eq!(store.persist_at(&key, true, 50), Ok(()));
    assert_eq!(store.persistent_of(&key), Some(650));
}

#[test]
fn probe_does_not_extend_but_get_does() {
    let key = hello();
    let mut store = FileStore::new(vec![], &vec![]);
    store.store_at(&key, FileState::Missing, 10);
    let probe = store.has_key(&key, FileState::Intact);
    assert!(probe.present);
    assert!(!probe.remove_file);
    assert!(!probe.flush);
    assert_eq!(store.persistent_of(&key), Some(610));
    store.get_at(&key, FileState::Intact, 90);
    assert_eq!(store.persistent_of(&key), Some(690));
}

#[test]
fn probe_of_corrupted_file_evicts_it() {
    let key = hello();
    let mut store = FileStore::new(vec![], &vec![]);
    store.store_at(&key, FileState::Missing, 10);
    let probe = store.has_key(&key, FileState::Corrupted);
    assert!(!probe.present);
    assert!(probe.remove_file);
    assert!(probe.flush);
    assert!(!store.contains(&key));
    let probe = store.has_key(&key, FileState::Missing);
    assert!(!probe.present);
    assert!(!probe.remove_file);
    assert!(!probe.flush);
}

#[test]
fn probe_of_missing_file_drops_stale_entry() {
    let key = hello();
    let mut store = FileStore::new(vec![], &vec![]);
    store.store_at(&key, FileState::Missing, 10);
    let probe = store.has_key(&key, FileState::Missing);
    assert!(!probe.present);
    assert!(!probe.remove_file);
    assert!(probe.flush);
    assert!(!store.contains(&key));
    assert!(store.flush().is_empty());
}

#[test]
fn current_time_operations() {
    let key = hello();
    let mut store = FileStore::new(vec![], &vec![]);
    assert!(store.store(&key, FileState::Missing).write);
    assert!(store.contains(&key));
    assert_eq!(store.persist(&key, true), Ok(()));
    assert!(store.get(&key, FileState::Intact).path.is_some());
    assert_eq!(store.persist(&key, false), Err(FileStoreError::NotFound));
    assert!(store.get(&key, FileState::Missing).path.is_none());
    assert!(!store.contains(&key));
}
