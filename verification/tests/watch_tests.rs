use workspace_fs::doc::DocId;
use workspace_fs::manager::FsManager;
use workspace_fs::memfs::MemOverlay;
use workspace_fs::memfs::MemProvider;
use workspace_fs::watch::FileChangeEvent;
use workspace_fs::watch::FileChangeKind;
use workspace_fs::watch::get_watcher_registration;
use workspace_fs::watch::handle_file_change_event;

fn id(s: &str) -> DocId {
    DocId::new(s.as_bytes().to_vec())
}

fn has(v: &Vec<DocId>, d: &DocId) -> bool {
    v.iter().any(|x| x.same(d))
}

#[test]
fn registration_requests_all_files_recursively() {
    let reg = get_watcher_registration();
    assert_eq!(reg.id, "watch_typst_files");
    assert_eq!(reg.method, "workspace/didChangeWatchedFiles");
    assert_eq!(reg.glob, "**/*");
}

#[test]
fn events_map_to_cache_mutations() {
    let d1 = id("file:///d1.typ");
    let d2 = id("file:///d2.typ");
    let d3 = id("file:///d3.typ");
    let mut fs = MemProvider::new();
    fs.put(&d1, b"one".to_vec());
    fs.put(&d2, b"two".to_vec());
    fs.put(&d3, b"three".to_vec());
    let mut mgr = FsManager::new(MemOverlay::new(), fs);

    mgr.read_bytes(&d1).unwrap();
    mgr.read_bytes(&d2).unwrap();
    mgr.read_bytes(&d3).unwrap();

    // New disk content behind the memos, so a recomputation is observable.
    mgr.write_raw(&d1, &b"one again".to_vec()).unwrap();
    mgr.write_raw(&d3, &b"three again".to_vec()).unwrap();

    handle_file_change_event(
        &mut mgr,
        FileChangeEvent { id: Some(d1.clone()), kind: FileChangeKind::Changed },
    );
    handle_file_change_event(
        &mut mgr,
        FileChangeEvent { id: Some(d2.clone()), kind: FileChangeKind::Deleted },
    );
    handle_file_change_event(
        &mut mgr,
        FileChangeEvent { id: Some(d3.clone()), kind: FileChangeKind::Created },
    );

    // `d1` and `d3` keep an (emptied) entry; `d2`'s entry is gone.
    let known = mgr.known_uris();
    assert!(has(&known, &d1));
    assert!(!has(&known, &d2));
    assert!(has(&known, &d3));

    // The emptied entries recompute on the next read and see the new disk
    // content; `d2` is recreated from scratch.
    assert_eq!(mgr.read_bytes(&d1).unwrap().as_bytes().as_slice(), b"one again");
    assert_eq!(mgr.read_bytes(&d3).unwrap().as_bytes().as_slice(), b"three again");
    assert_eq!(mgr.read_bytes(&d2).unwrap().as_bytes().as_slice(), b"two");
}

#[test]
fn unknown_event_kind_changes_nothing() {
    let d1 = id("file:///d1.typ");
    let mut fs = MemProvider::new();
    fs.put(&d1, b"one".to_vec());
    let mut mgr = FsManager::new(MemOverlay::new(), fs);

    assert_eq!(mgr.read_bytes(&d1).unwrap().as_bytes().as_slice(), b"one");
    // New disk content behind the memo: if the event invalidated anything,
    // the next read would see it.
    mgr.write_raw(&d1, &b"two".to_vec()).unwrap();

    handle_file_change_event(
        &mut mgr,
        FileChangeEvent { id: Some(d1.clone()), kind: FileChangeKind::Other },
    );

    // The memo survived the unknown event: the stale content still serves.
    assert!(has(&mgr.known_uris(), &d1));
    assert_eq!(mgr.read_bytes(&d1).unwrap().as_bytes().as_slice(), b"one");

    // A real change event then exposes the new content.
    handle_file_change_event(
        &mut mgr,
        FileChangeEvent { id: Some(d1.clone()), kind: FileChangeKind::Changed },
    );
    assert_eq!(mgr.read_bytes(&d1).unwrap().as_bytes().as_slice(), b"two");
}

#[test]
fn unresolvable_path_is_dropped_silently() {
    let d1 = id("file:///d1.typ");
    let mut fs = MemProvider::new();
    fs.put(&d1, b"one".to_vec());
    let mut mgr = FsManager::new(MemOverlay::new(), fs);

    assert_eq!(mgr.read_bytes(&d1).unwrap().as_bytes().as_slice(), b"one");
    mgr.write_raw(&d1, &b"two".to_vec()).unwrap();

    handle_file_change_event(&mut mgr, FileChangeEvent { id: None, kind: FileChangeKind::Deleted });

    // The dropped event touched nothing: the memo still serves.
    assert!(has(&mgr.known_uris(), &d1));
    assert_eq!(mgr.read_bytes(&d1).unwrap().as_bytes().as_slice(), b"one");
}
