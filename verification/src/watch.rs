//! The watch/invalidation bridge.
//!
//! The workspace has no file-system-watching capability of its own: it asks
//! the editor host, through one registration, to report every file change
//! under the workspace root, and translates each reported event into the
//! matching cache mutation on the composite manager.

use vstd::prelude::*;

use crate::cache::EntryView;
use crate::doc::DocId;
use crate::manager::FsManager;
use crate::provider::OverlayProvider;
use crate::provider::ReadProvider;

verus! {

/// The kind of change the editor host reports for a file.
#[derive(Clone, Copy, Debug, PartialEq, Eq, Structural)]
pub enum FileChangeKind {
    /// The file came into being.
    Created,
    /// The file's content changed.
    Changed,
    /// The file is gone.
    Deleted,
    /// Any kind this workspace does not know; ignored, never fatal.
    Other,
}

/// One host-reported file change. `id` is `None` when the host's path could
/// not be resolved to a document identifier: such an event concerns a file
/// outside the workspace's concern and is dropped silently.
pub struct FileChangeEvent {
    pub id: Option<DocId>,
    pub kind: FileChangeKind,
}

/// What the workspace asks the editor host to watch: a single watcher over
/// every path under the workspace root, under a stable registration
/// identifier so the registration can later be revoked. The wire encoding is
/// the editor protocol's concern; this is the semantic content.
pub struct WatchRegistration {
    pub id: &'static str,
    pub method: &'static str,
    pub glob: &'static str,
}

/// The registration asking the host to report all file changes, recursively
/// and unfiltered, under the stable identifier `watch_typst_files`.
pub fn get_watcher_registration() -> (r: WatchRegistration)
    ensures
        r.id@ == "watch_typst_files"@,
        r.method@ == "workspace/didChangeWatchedFiles"@,
        r.glob@ == "**/*"@,
{
    WatchRegistration {
        id: "watch_typst_files",
        method: "workspace/didChangeWatchedFiles",
        glob: "**/*",
    }
}

/// Translates one host-reported event into the matching cache mutation:
/// `Changed` and `Created` clear the memos of the document's entry, if it
/// has one; `Deleted` removes its entry; an unknown kind — or an
/// unresolvable path — changes nothing. The overlay is never touched.
pub fn handle_file_change_event<L: OverlayProvider, Fs: ReadProvider>(
    manager: &mut FsManager<L, Fs>,
    event: FileChangeEvent,
)
    requires
        old(manager).wf(),
    ensures
        final(manager).wf(),
        final(manager).overlay() == old(manager).overlay(),
        final(manager).cache().provider() == old(manager).cache().provider(),
        match event.id {
            Some(d) => match event.kind {
                FileChangeKind::Changed | FileChangeKind::Created => (old(
                    manager,
                ).cache()@.contains_key(d@) ==> final(manager).cache()@ == old(
                    manager,
                ).cache()@.insert(d@, EntryView::empty())) && (!old(manager).cache()@.contains_key(
                    d@,
                ) ==> final(manager).cache()@ == old(manager).cache()@),
                FileChangeKind::Deleted => final(manager).cache()@ == old(manager).cache()@.remove(
                    d@,
                ),
                FileChangeKind::Other => final(manager).cache()@ == old(manager).cache()@,
            },
            None => final(manager).cache()@ == old(manager).cache()@,
        },
{
    match event.id {
        Some(d) => match event.kind {
            FileChangeKind::Changed | FileChangeKind::Created => manager.invalidate_local(&d),
            FileChangeKind::Deleted => manager.delete_local(&d),
            FileChangeKind::Other => {},
        },
        None => {},
    }
}

} // verus!
