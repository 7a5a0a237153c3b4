use workspace_fs::doc::DocId;
use workspace_fs::doc::FileErrorKind;
use workspace_fs::doc::PositionEncoding;
use workspace_fs::doc::ProjectContext;
use workspace_fs::doc::TextChange;
use workspace_fs::manager::FsManager;
use workspace_fs::memfs::MemOverlay;
use workspace_fs::memfs::MemProvider;

fn id(s: &str) -> DocId {
    DocId::new(s.as_bytes().to_vec())
}

fn has(v: &Vec<DocId>, d: &DocId) -> bool {
    v.iter().any(|x| x.same(d))
}

fn manager_with(files: &[(&DocId, &[u8])]) -> FsManager<MemOverlay, MemProvider> {
    let mut fs = MemProvider::new();
    for (d, data) in files {
        fs.put(d, data.to_vec());
    }
    FsManager::new(MemOverlay::new(), fs)
}

#[test]
fn overlay_content_wins_over_disk() {
    let a = id("file:///a.typ");
    let ctx = ProjectContext::new(0);
    let mut mgr = manager_with(&[(&a, b"disk")]);

    mgr.open_lsp(&a, b"live".to_vec(), &ctx).unwrap();
    assert_eq!(mgr.read_bytes(&a).unwrap().as_bytes().as_slice(), b"live");
    assert_eq!(mgr.read_source(&a, &ctx).unwrap().as_bytes().as_slice(), b"live");
    // The overlay answered; the inner provider was never consulted.
    assert_eq!(mgr.read_bytes(&a).unwrap().as_bytes().as_slice(), b"live");

    mgr.close_lsp(&a);
    assert_eq!(mgr.read_bytes(&a).unwrap().as_bytes().as_slice(), b"disk");
}

#[test]
fn overlay_shadows_stale_cache_entry() {
    let a = id("file:///a.typ");
    let ctx = ProjectContext::new(0);
    let mut mgr = manager_with(&[(&a, b"disk")]);

    // Memoize the disk content first, then open a live buffer over it.
    assert_eq!(mgr.read_bytes(&a).unwrap().as_bytes().as_slice(), b"disk");
    mgr.open_lsp(&a, b"live".to_vec(), &ctx).unwrap();
    assert_eq!(mgr.read_bytes(&a).unwrap().as_bytes().as_slice(), b"live");

    // Closing the buffer exposes the memoized disk content again.
    mgr.close_lsp(&a);
    assert_eq!(mgr.read_bytes(&a).unwrap().as_bytes().as_slice(), b"disk");
}

#[test]
fn miss_falls_through_to_cached_disk() {
    let a = id("file:///a.typ");
    let mut mgr = manager_with(&[(&a, b"disk")]);

    assert_eq!(mgr.read_bytes(&a).unwrap().as_bytes().as_slice(), b"disk");
    assert_eq!(mgr.read_bytes(&a).unwrap().as_bytes().as_slice(), b"disk");
}

#[test]
fn missing_everywhere_reports_not_found() {
    let a = id("file:///missing.typ");
    let mut mgr = manager_with(&[]);

    assert!(matches!(mgr.read_bytes(&a), Err(FileErrorKind::NotFound)));
}

#[test]
fn write_bypasses_cache_until_invalidated() {
    let a = id("file:///a.typ");
    let mut mgr = manager_with(&[(&a, b"old")]);

    assert_eq!(mgr.read_bytes(&a).unwrap().as_bytes().as_slice(), b"old");

    // The write reaches the inner provider but neither the overlay nor the
    // cache: the next read serves the stale memo, as documented.
    mgr.write_raw(&a, &b"new".to_vec()).unwrap();
    assert_eq!(mgr.read_bytes(&a).unwrap().as_bytes().as_slice(), b"old");

    // Once the watch bridge (here: a direct call) invalidates, the fresh
    // content shows through.
    mgr.invalidate_local(&a);
    assert_eq!(mgr.read_bytes(&a).unwrap().as_bytes().as_slice(), b"new");
}

#[test]
fn edit_replaces_live_content() {
    let a = id("file:///a.typ");
    let ctx = ProjectContext::new(0);
    let mut mgr = manager_with(&[]);

    mgr.open_lsp(&a, b"one".to_vec(), &ctx).unwrap();
    mgr.edit_lsp(
        &a,
        vec![TextChange { range: None, text: b"two".to_vec() }],
        PositionEncoding::Utf16,
    );
    assert_eq!(mgr.read_bytes(&a).unwrap().as_bytes().as_slice(), b"two");
}

#[test]
fn known_uris_is_union_of_both_layers() {
    let a = id("file:///a.typ");
    let b = id("file:///b.typ");
    let ctx = ProjectContext::new(0);
    let mut mgr = manager_with(&[(&a, b"disk")]);

    // `a` is cached from disk and also open in the editor; `b` exists only
    // as an editor buffer. Each is known exactly once.
    mgr.read_bytes(&a).unwrap();
    mgr.open_lsp(&a, b"live".to_vec(), &ctx).unwrap();
    mgr.open_lsp(&b, b"draft".to_vec(), &ctx).unwrap();

    let known = mgr.known_uris();
    assert_eq!(known.len(), 2);
    assert!(has(&known, &a));
    assert!(has(&known, &b));
}

#[test]
fn new_local_registers_without_reading() {
    let a = id("file:///a.typ");
    let mut mgr = manager_with(&[(&a, b"disk")]);

    mgr.new_local(&a);
    assert!(has(&mgr.known_uris(), &a));
}

#[test]
fn invalidate_local_unknown_document_creates_no_entry() {
    let a = id("file:///a.typ");
    let mut mgr = manager_with(&[(&a, b"disk")]);

    mgr.invalidate_local(&a);
    assert!(!has(&mgr.known_uris(), &a));
}

#[test]
fn clear_forgets_both_layers() {
    let a = id("file:///a.typ");
    let b = id("file:///b.typ");
    let ctx = ProjectContext::new(0);
    let mut mgr = manager_with(&[(&a, b"disk")]);

    mgr.read_bytes(&a).unwrap();
    mgr.open_lsp(&b, b"draft".to_vec(), &ctx).unwrap();
    mgr.clear();
    assert_eq!(mgr.known_uris().len(), 0);
}
