//! The composite manager: one provider view over overlay plus cached disk.
//!
//! Reads try the overlay first and fall through to the cache-wrapped inner
//! provider only on a *miss*; an overlay error propagates and is never
//! swallowed to attempt the disk. Writes always target the inner provider
//! directly, bypassing both the overlay and the cache. Lifecycle calls
//! delegate to the overlay; local-document calls delegate to the cache.

use vstd::prelude::*;

use crate::cache::Cache;
use crate::cache::EntryView;
use crate::cache::bytes_outcome;
use crate::cache::bytes_read_step;
use crate::cache::entry_or_empty;
use crate::cache::source_outcome;
use crate::cache::source_read_step;
use crate::doc::DocId;
use crate::doc::FileErrorKind;
use crate::doc::PositionEncoding;
use crate::doc::ProjectContext;
use crate::doc::RawContent;
use crate::doc::Source;
use crate::doc::TextChange;
use crate::doc::distinct_ids;
use crate::doc::ids_set;
use crate::doc::lemma_ids_set_push;
use crate::provider::KnownUriProvider;
use crate::provider::OverlayProvider;
use crate::provider::OverlayRead;
use crate::provider::Provider;
use crate::provider::ReadProvider;
use crate::provider::WriteProvider;

verus! {

/// Composes an editor-overlay provider and a cache-wrapped inner provider
/// behind one provider view, with read fallback and write passthrough.
///
/// The overlay and the cache are disjoint address spaces: a document present
/// in the overlay shadows, but never alters, the cache's memo for the same
/// identifier.
pub struct FsManager<L: OverlayProvider, Fs: ReadProvider> {
    lsp: L,
    local: Cache<Fs>,
}

impl<L: OverlayProvider, Fs: ReadProvider> FsManager<L, Fs> {
    /// The overlay provider's state.
    pub closed spec fn overlay(&self) -> L {
        self.lsp
    }

    /// The cache's state.
    pub closed spec fn cache(&self) -> Cache<Fs> {
        self.local
    }

    /// Well-formedness of both composed providers.
    pub open spec fn wf(&self) -> bool {
        &&& self.overlay().inv()
        &&& self.cache().wf()
    }

    /// Composes `lsp` over a fresh cache around `fs`.
    pub fn new(lsp: L, fs: Fs) -> (r: FsManager<L, Fs>)
        requires
            lsp.inv(),
            fs.inv(),
        ensures
            r.wf(),
            r.overlay() == lsp,
            r.cache()@ == Map::<Seq<u8>, EntryView>::empty(),
            r.cache().provider() == fs,
    {
        FsManager { lsp, local: Cache::new(fs) }
    }

    /// Reads raw content: the overlay's if it manages the document, else the
    /// cache's memoized view of the inner provider. The cache is untouched
    /// whenever the overlay answers.
    pub fn read_bytes(&mut self, id: &DocId) -> (r: Result<RawContent, FileErrorKind>)
        requires
            old(self).wf(),
        ensures
            final(self).wf(),
            final(self).overlay() == old(self).overlay(),
            old(self).overlay().managed().contains(id@) ==> final(self).cache() == old(
                self,
            ).cache() && match old(self).overlay().bytes_at(id@) {
                Ok(s) => r matches Ok(c) && c@ == s,
                Err(e) => r == Err::<RawContent, FileErrorKind>(e),
            },
            !old(self).overlay().managed().contains(id@) ==> final(self).cache()@
                == bytes_read_step(old(self).cache()@, id@, bytes_outcome(r)),
            !old(self).overlay().managed().contains(id@) ==> (entry_or_empty(
                old(self).cache()@,
                id@,
            ).bytes matches Some(v) ==> bytes_outcome(r) == Ok::<Seq<u8>, FileErrorKind>(v)
                && final(self).cache().provider() == old(self).cache().provider()),
    {
        match self.lsp.read_bytes(id) {
            OverlayRead::Hit(c) => Ok(c),
            OverlayRead::Fail(e) => Err(e),
            OverlayRead::Miss => self.local.read_bytes_ref(id),
        }
    }

    /// Reads the parsed representation, with the same fallback policy as
    /// [`FsManager::read_bytes`].
    pub fn read_source(&mut self, id: &DocId, ctx: &ProjectContext) -> (r: Result<
        Source,
        FileErrorKind,
    >)
        requires
            old(self).wf(),
        ensures
            final(self).wf(),
            final(self).overlay() == old(self).overlay(),
            old(self).overlay().managed().contains(id@) ==> final(self).cache() == old(
                self,
            ).cache() && match old(self).overlay().source_at(id@) {
                Ok(s) => r matches Ok(c) && c@ == s,
                Err(e) => r == Err::<Source, FileErrorKind>(e),
            },
            !old(self).overlay().managed().contains(id@) ==> final(self).cache()@
                == source_read_step(old(self).cache()@, id@, source_outcome(r)),
            !old(self).overlay().managed().contains(id@) ==> (entry_or_empty(
                old(self).cache()@,
                id@,
            ).source matches Some(v) ==> source_outcome(r) == Ok::<Seq<u8>, FileErrorKind>(v)
                && final(self).cache().provider() == old(self).cache().provider()),
    {
        match self.lsp.read_source(id, ctx) {
            OverlayRead::Hit(s) => Ok(s),
            OverlayRead::Fail(e) => Err(e),
            OverlayRead::Miss => self.local.read_source_ref(id, ctx),
        }
    }

    /// Writes raw content straight to the inner provider, which receives
    /// exactly these arguments, bypassing both the overlay and the cache: a
    /// cached memo for this document can go stale until the watch bridge
    /// delivers an invalidation for it.
    pub fn write_raw(&mut self, id: &DocId, data: &Vec<u8>) -> (r: Result<(), FileErrorKind>)
        where Fs: WriteProvider
        requires
            old(self).wf(),
        ensures
            final(self).wf(),
            final(self).overlay() == old(self).overlay(),
            final(self).cache()@ == old(self).cache()@,
            Fs::write_effect(
                old(self).cache().provider(),
                final(self).cache().provider(),
                *id,
                *data,
                r,
            ),
    {
        self.local.write_through(id, data)
    }

    /// Lists every document either layer knows, each exactly once: the union
    /// of the cache's entries and the overlay's managed documents.
    pub fn known_uris(&self) -> (r: Vec<DocId>)
        requires
            self.wf(),
        ensures
            ids_set(r@) == self.cache()@.dom().union(self.overlay().managed()),
            distinct_ids(r@),
    {
        let mut r = self.local.known_uris();
        let from_overlay = self.lsp.known_ids();
        let ghost ov = from_overlay@;
        let n = from_overlay.len();
        let mut i: usize = 0;
        while i < n
            invariant
                n == ov.len(),
                from_overlay@ == ov,
                0 <= i <= n,
                distinct_ids(r@),
                ids_set(r@) == self.cache()@.dom().union(ids_set(ov.subrange(0, i as int))),
            decreases n - i,
        {
            let ghost rpre = r@;
            let ghost sub_i = ov.subrange(0, i as int);
            let present = contains_id(&r, &from_overlay[i]);
            if !present {
                r.push(from_overlay[i].clone());
                proof {
                    lemma_ids_set_push(rpre, r@[rpre.len() as int]);
                    assert forall|p: int, q: int| 0 <= p < q < r@.len() implies r@[p]@
                        != r@[q]@ by {
                        if q < rpre.len() {
                            assert(rpre[p]@ != rpre[q]@);
                        } else {
                            assert(!ids_set(rpre).contains(r@[q]@));
                            assert(rpre[p]@ == r@[p]@);
                        }
                    }
                }
            }
            proof {
                assert(ov.subrange(0, i + 1) =~= sub_i.push(ov[i as int]));
                lemma_ids_set_push(sub_i, ov[i as int]);
                assert(ids_set(r@) =~= self.cache()@.dom().union(
                    ids_set(ov.subrange(0, i + 1)),
                ));
            }
            i += 1;
        }
        proof {
            assert(ov.subrange(0, n as int) =~= ov);
        }
        r
    }

    /// Opens a live editor buffer for `id`: delegates to the overlay; the
    /// cache is untouched.
    pub fn open_lsp(&mut self, id: &DocId, text: Vec<u8>, ctx: &ProjectContext) -> (r: Result<
        (),
        FileErrorKind,
    >)
        requires
            old(self).wf(),
        ensures
            final(self).wf(),
            final(self).cache() == old(self).cache(),
            r is Ok ==> final(self).overlay().managed() == old(self).overlay().managed().insert(
                id@,
            ),
            r is Ok ==> final(self).overlay().bytes_at(id@) == Ok::<Seq<u8>, FileErrorKind>(text@),
            r is Err ==> final(self).overlay().managed() == old(self).overlay().managed(),
            r is Err && old(self).overlay().managed().contains(id@)
                ==> final(self).overlay().bytes_at(id@) == old(self).overlay().bytes_at(id@)
                && final(self).overlay().source_at(id@) == old(self).overlay().source_at(id@),
            forall|k: Seq<u8>|
                k != id@ && old(self).overlay().managed().contains(k)
                    ==> #[trigger] final(self).overlay().bytes_at(k) == old(
                    self,
                ).overlay().bytes_at(k),
            forall|k: Seq<u8>|
                k != id@ && old(self).overlay().managed().contains(k)
                    ==> #[trigger] final(self).overlay().source_at(k) == old(
                    self,
                ).overlay().source_at(k),
    {
        self.lsp.open(id, text, ctx)
    }

    /// Closes the live editor buffer for `id`: delegates to the overlay; the
    /// cache is untouched, so disk content for `id` shows through again.
    pub fn close_lsp(&mut self, id: &DocId)
        requires
            old(self).wf(),
        ensures
            final(self).wf(),
            final(self).cache() == old(self).cache(),
            final(self).overlay().managed() == old(self).overlay().managed().remove(id@),
            forall|k: Seq<u8>|
                k != id@ && old(self).overlay().managed().contains(k)
                    ==> #[trigger] final(self).overlay().bytes_at(k) == old(
                    self,
                ).overlay().bytes_at(k),
            forall|k: Seq<u8>|
                k != id@ && old(self).overlay().managed().contains(k)
                    ==> #[trigger] final(self).overlay().source_at(k) == old(
                    self,
                ).overlay().source_at(k),
    {
        self.lsp.close(id)
    }

    /// Applies editor-reported changes to the live buffer for `id`:
    /// delegates to the overlay, which receives exactly these arguments; the
    /// cache is untouched.
    pub fn edit_lsp(&mut self, id: &DocId, changes: Vec<TextChange>, encoding: PositionEncoding)
        requires
            old(self).wf(),
        ensures
            final(self).wf(),
            final(self).cache() == old(self).cache(),
            final(self).overlay().managed() == old(self).overlay().managed(),
            L::edit_effect(old(self).overlay(), final(self).overlay(), *id, changes, encoding),
            forall|k: Seq<u8>|
                k != id@ && old(self).overlay().managed().contains(k)
                    ==> #[trigger] final(self).overlay().bytes_at(k) == old(
                    self,
                ).overlay().bytes_at(k),
            forall|k: Seq<u8>|
                k != id@ && old(self).overlay().managed().contains(k)
                    ==> #[trigger] final(self).overlay().source_at(k) == old(
                    self,
                ).overlay().source_at(k),
    {
        self.lsp.edit(id, changes, encoding)
    }

    /// Registers a newly discovered local document: the cache gets an entry
    /// for it (kept as is if one exists); the overlay is untouched.
    pub fn new_local(&mut self, id: &DocId)
        requires
            old(self).wf(),
        ensures
            final(self).wf(),
            final(self).overlay() == old(self).overlay(),
            final(self).cache().provider() == old(self).cache().provider(),
            final(self).cache()@ == old(self).cache()@.insert(
                id@,
                entry_or_empty(old(self).cache()@, id@),
            ),
    {
        self.local.cache_new(id)
    }

    /// If a cache entry exists for `id`, resets both its memos, so the next
    /// reads for `id` consult the inner provider afresh; no entry is created
    /// when none exists. The overlay is untouched.
    pub fn invalidate_local(&mut self, id: &DocId)
        requires
            old(self).wf(),
        ensures
            final(self).wf(),
            final(self).overlay() == old(self).overlay(),
            final(self).cache().provider() == old(self).cache().provider(),
            old(self).cache()@.contains_key(id@) ==> final(self).cache()@ == old(
                self,
            ).cache()@.insert(id@, EntryView::empty()),
            !old(self).cache()@.contains_key(id@) ==> final(self).cache()@ == old(self).cache()@,
    {
        self.local.invalidate(id)
    }

    /// Removes `id`'s cache entry entirely; the overlay is untouched.
    pub fn delete_local(&mut self, id: &DocId)
        requires
            old(self).wf(),
        ensures
            final(self).wf(),
            final(self).overlay() == old(self).overlay(),
            final(self).cache().provider() == old(self).cache().provider(),
            final(self).cache()@ == old(self).cache()@.remove(id@),
    {
        self.local.delete(id)
    }

    /// Forgets everything: closes every overlay document and removes every
    /// cache entry.
    pub fn clear(&mut self)
        requires
            old(self).wf(),
        ensures
            final(self).wf(),
            final(self).overlay().managed() == Set::<Seq<u8>>::empty(),
            final(self).cache().provider() == old(self).cache().provider(),
            final(self).cache()@ == Map::<Seq<u8>, EntryView>::empty(),
    {
        self.lsp.clear();
        self.local.clear();
    }
}

/// Whether some identifier in `v` names the same document as `id`.
fn contains_id(v: &Vec<DocId>, id: &DocId) -> (r: bool)
    ensures
        r == ids_set(v@).contains(id@),
{
    let n = v.len();
    let mut i: usize = 0;
    while i < n
        invariant
            n == v@.len(),
            0 <= i <= n,
            forall|j: int| 0 <= j < i ==> v@[j]@ != id@,
        decreases n - i,
    {
        if v[i].same(id) {
            assert(v@[i as int]@ == id@);
            return true;
        }
        i += 1;
    }
    assert(!ids_set(v@).contains(id@));
    false
}

impl<L: OverlayProvider, Fs: ReadProvider> Provider for FsManager<L, Fs> {
    open spec fn inv(&self) -> bool {
        self.wf()
    }
}

impl<L: OverlayProvider, Fs: ReadProvider> ReadProvider for FsManager<L, Fs> {
    fn read_bytes(&mut self, id: &DocId) -> (r: Result<RawContent, FileErrorKind>) {
        FsManager::read_bytes(self, id)
    }

    fn read_source(&mut self, id: &DocId, ctx: &ProjectContext) -> (r: Result<
        Source,
        FileErrorKind,
    >) {
        FsManager::read_source(self, id, ctx)
    }
}

impl<L: OverlayProvider, Fs: ReadProvider + WriteProvider> WriteProvider for FsManager<L, Fs> {
    open spec fn write_effect(
        pre: Self,
        post: Self,
        id: DocId,
        data: Vec<u8>,
        r: Result<(), FileErrorKind>,
    ) -> bool {
        &&& Fs::write_effect(pre.cache().provider(), post.cache().provider(), id, data, r)
        &&& post.cache()@ == pre.cache()@
        &&& post.overlay() == pre.overlay()
    }

    fn write_raw(&mut self, id: &DocId, data: &Vec<u8>) -> (r: Result<(), FileErrorKind>) {
        FsManager::write_raw(self, id, data)
    }
}

impl<L: OverlayProvider, Fs: ReadProvider> KnownUriProvider for FsManager<L, Fs> {
    open spec fn known_set(&self) -> Set<Seq<u8>> {
        self.cache()@.dom().union(self.overlay().managed())
    }

    fn known_uris(&self) -> (r: Vec<DocId>) {
        FsManager::known_uris(self)
    }
}

} // verus!
