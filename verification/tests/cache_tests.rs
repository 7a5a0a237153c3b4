use workspace_fs::cache::Cache;
use workspace_fs::doc::DocId;
use workspace_fs::doc::FileErrorKind;
use workspace_fs::doc::ProjectContext;
use workspace_fs::memfs::MemProvider;
use workspace_fs::provider::WriteProvider;

fn id(s: &str) -> DocId {
    DocId::new(s.as_bytes().to_vec())
}

fn has(v: &Vec<DocId>, d: &DocId) -> bool {
    v.iter().any(|x| x.same(d))
}

#[test]
fn memoizes_bytes_at_most_one_inner_read() {
    let a = id("file:///a.typ");
    let mut fs = MemProvider::new();
    fs.put(&a, b"one".to_vec());
    let mut cache = Cache::new(fs);

    let first = cache.read_bytes_ref(&a).unwrap();
    assert_eq!(first.as_bytes().as_slice(), b"one");
    let second = cache.read_bytes_ref(&a).unwrap();
    assert_eq!(second.as_bytes().as_slice(), b"one");
    let third = cache.read_bytes_ref(&a).unwrap();
    assert_eq!(third.as_bytes().as_slice(), b"one");
    assert_eq!(cache.inner().bytes_calls(), 1);
}

#[test]
fn memoizes_source_at_most_one_inner_read() {
    let a = id("file:///a.typ");
    let ctx = ProjectContext::new(7);
    let mut fs = MemProvider::new();
    fs.put(&a, b"= heading".to_vec());
    let mut cache = Cache::new(fs);

    let first = cache.read_source_ref(&a, &ctx).unwrap();
    assert_eq!(first.as_bytes().as_slice(), b"= heading");
    let second = cache.read_source_ref(&a, &ctx).unwrap();
    assert_eq!(second.as_bytes().as_slice(), b"= heading");
    assert_eq!(cache.inner().source_calls(), 1);
}

#[test]
fn memo_slots_fill_independently() {
    let a = id("file:///a.typ");
    let ctx = ProjectContext::new(0);
    let mut fs = MemProvider::new();
    fs.put(&a, b"text".to_vec());
    let mut cache = Cache::new(fs);

    cache.read_bytes_ref(&a).unwrap();
    cache.read_source_ref(&a, &ctx).unwrap();
    cache.read_bytes_ref(&a).unwrap();
    cache.read_source_ref(&a, &ctx).unwrap();
    assert_eq!(cache.inner().bytes_calls(), 1);
    assert_eq!(cache.inner().source_calls(), 1);
}

#[test]
fn invalidate_forces_fresh_inner_read() {
    let a = id("file:///a.typ");
    let mut fs = MemProvider::new();
    fs.put(&a, b"one".to_vec());
    let mut cache = Cache::new(fs);

    assert_eq!(cache.read_bytes_ref(&a).unwrap().as_bytes().as_slice(), b"one");

    // Writing bypasses the memos: the next read still serves the stale memo.
    cache.write_raw(&a, &b"two".to_vec()).unwrap();
    assert_eq!(cache.read_bytes_ref(&a).unwrap().as_bytes().as_slice(), b"one");
    assert_eq!(cache.inner().bytes_calls(), 1);

    cache.invalidate(&a);
    assert_eq!(cache.read_bytes_ref(&a).unwrap().as_bytes().as_slice(), b"two");
    assert_eq!(cache.inner().bytes_calls(), 2);
}

#[test]
fn failed_read_is_not_cached() {
    let a = id("file:///a.typ");
    let mut fs = MemProvider::new();
    fs.put(&a, b"one".to_vec());
    fs.fail_once(FileErrorKind::Io);
    let mut cache = Cache::new(fs);

    assert!(matches!(cache.read_bytes_ref(&a), Err(FileErrorKind::Io)));
    assert_eq!(cache.inner().bytes_calls(), 1);

    // The transient failure is gone; the retry reaches the inner provider
    // and succeeds, and only then is the value memoized.
    assert_eq!(cache.read_bytes_ref(&a).unwrap().as_bytes().as_slice(), b"one");
    assert_eq!(cache.inner().bytes_calls(), 2);
    cache.read_bytes_ref(&a).unwrap();
    assert_eq!(cache.inner().bytes_calls(), 2);
}

#[test]
fn failed_source_read_is_not_cached() {
    let a = id("file:///a.typ");
    let ctx = ProjectContext::new(1);
    let mut fs = MemProvider::new();
    fs.put(&a, b"body".to_vec());
    fs.fail_once(FileErrorKind::InvalidEncoding);
    let mut cache = Cache::new(fs);

    assert!(matches!(cache.read_source_ref(&a, &ctx), Err(FileErrorKind::InvalidEncoding)));
    assert_eq!(cache.read_source_ref(&a, &ctx).unwrap().as_bytes().as_slice(), b"body");
    assert_eq!(cache.inner().source_calls(), 2);
}

#[test]
fn missing_document_reports_not_found() {
    let a = id("file:///missing.typ");
    let fs = MemProvider::new();
    let mut cache = Cache::new(fs);

    assert!(matches!(cache.read_bytes_ref(&a), Err(FileErrorKind::NotFound)));
    // The entry was created by the access, though both memos stay empty.
    assert!(has(&cache.known_uris(), &a));
    assert!(matches!(cache.read_bytes_ref(&a), Err(FileErrorKind::NotFound)));
    assert_eq!(cache.inner().bytes_calls(), 2);
}

#[test]
fn cache_new_registers_without_reading() {
    let a = id("file:///a.typ");
    let mut fs = MemProvider::new();
    fs.put(&a, b"one".to_vec());
    let mut cache = Cache::new(fs);

    cache.cache_new(&a);
    assert!(has(&cache.known_uris(), &a));
    assert_eq!(cache.inner().bytes_calls(), 0);
    assert_eq!(cache.inner().source_calls(), 0);
}

#[test]
fn delete_removes_known_until_recreated() {
    let a = id("file:///a.typ");
    let mut fs = MemProvider::new();
    fs.put(&a, b"one".to_vec());
    let mut cache = Cache::new(fs);

    cache.read_bytes_ref(&a).unwrap();
    assert!(has(&cache.known_uris(), &a));

    cache.delete(&a);
    assert!(!has(&cache.known_uris(), &a));

    // A later read recreates a fresh entry from scratch.
    cache.read_bytes_ref(&a).unwrap();
    assert!(has(&cache.known_uris(), &a));
    assert_eq!(cache.inner().bytes_calls(), 2);
}

#[test]
fn delete_then_cache_new_recreates_entry() {
    let a = id("file:///a.typ");
    let mut cache = Cache::new(MemProvider::new());

    cache.cache_new(&a);
    cache.delete(&a);
    assert!(!has(&cache.known_uris(), &a));
    cache.cache_new(&a);
    assert!(has(&cache.known_uris(), &a));
}

#[test]
fn invalidate_unknown_document_creates_no_entry() {
    let a = id("file:///a.typ");
    let mut cache = Cache::new(MemProvider::new());

    cache.invalidate(&a);
    assert_eq!(cache.known_uris().len(), 0);
}

#[test]
fn clear_removes_all_entries() {
    let a = id("file:///a.typ");
    let b = id("file:///b.typ");
    let mut fs = MemProvider::new();
    fs.put(&a, b"one".to_vec());
    fs.put(&b, b"two".to_vec());
    let mut cache = Cache::new(fs);

    cache.read_bytes_ref(&a).unwrap();
    cache.read_bytes_ref(&b).unwrap();
    assert_eq!(cache.known_uris().len(), 2);

    cache.clear();
    assert_eq!(cache.known_uris().len(), 0);
}

#[test]
fn known_uris_lists_each_document_once() {
    let a = id("file:///a.typ");
    let b = id("file:///b.typ");
    let mut fs = MemProvider::new();
    fs.put(&a, b"one".to_vec());
    fs.put(&b, b"two".to_vec());
    let mut cache = Cache::new(fs);

    cache.read_bytes_ref(&a).unwrap();
    cache.read_bytes_ref(&a).unwrap();
    cache.read_bytes_ref(&b).unwrap();
    let known = cache.known_uris();
    assert_eq!(known.len(), 2);
    assert!(has(&known, &a));
    assert!(has(&known, &b));
}

#[test]
fn invalidate_clears_both_memo_slots() {
    let a = id("file:///a.typ");
    let ctx = ProjectContext::new(3);
    let mut fs = MemProvider::new();
    fs.put(&a, b"text".to_vec());
    let mut cache = Cache::new(fs);

    cache.read_bytes_ref(&a).unwrap();
    cache.read_source_ref(&a, &ctx).unwrap();
    cache.invalidate(&a);
    cache.read_bytes_ref(&a).unwrap();
    cache.read_source_ref(&a, &ctx).unwrap();
    assert_eq!(cache.inner().bytes_calls(), 2);
    assert_eq!(cache.inner().source_calls(), 2);
}
