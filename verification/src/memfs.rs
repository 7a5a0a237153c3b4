//! In-memory providers.
//!
//! `MemOverlay` is a verified overlay: a map of open documents whose reads
//! hit for managed documents and miss otherwise. It applies every reported
//! change as a whole-document replacement; position-encoding-aware patching
//! belongs to a richer overlay behind the same interface.
//!
//! `MemProvider` is an in-memory inner provider: it serves documents put
//! into it, can be told to fail its next read once, and counts the reads it
//! answers, so callers can observe exactly when the cache consulted it.

use vstd::prelude::*;

use crate::doc::DocId;
use crate::doc::FileErrorKind;
use crate::doc::PositionEncoding;
use crate::doc::ProjectContext;
use crate::doc::RawContent;
use crate::doc::Source;
use crate::doc::TextChange;
use crate::doc::distinct_ids;
use crate::doc::ids_set;
use crate::keymap::distinct_keys;
use crate::keymap::lemma_pairs_map_contains;
use crate::keymap::lemma_pairs_map_index;
use crate::keymap::lemma_pairs_map_push;
use crate::keymap::lemma_pairs_map_remove;
use crate::keymap::lemma_pairs_map_update;
use crate::keymap::pairs_map;
use crate::provider::OverlayProvider;
use crate::provider::OverlayRead;
use crate::provider::Provider;
use crate::provider::ReadProvider;
use crate::provider::WriteProvider;

verus! {

/// An overlay holding the live text of open documents in memory.
pub struct MemOverlay {
    docs: Vec<(DocId, (RawContent, Source))>,
}

impl MemOverlay {
    /// The stored pairs, by their views: identifier, raw bytes, source text.
    pub closed spec fn docs_seq(&self) -> Seq<(Seq<u8>, (Seq<u8>, Seq<u8>))> {
        self.docs@.map_values(|p: (DocId, (RawContent, Source))| (p.0@, (p.1.0@, p.1.1@)))
    }

    /// The map of open documents the stored pairs denote.
    pub open spec fn docs_map(&self) -> Map<Seq<u8>, (Seq<u8>, Seq<u8>)> {
        pairs_map(self.docs_seq())
    }

    /// An overlay with no document open.
    pub fn new() -> (r: MemOverlay)
        ensures
            r.inv(),
            r.managed() == Set::<Seq<u8>>::empty(),
    {
        let r = MemOverlay { docs: Vec::new() };
        proof {
            assert(r.docs_seq() =~= Seq::<(Seq<u8>, (Seq<u8>, Seq<u8>))>::empty());
            assert(r.managed() =~= Set::<Seq<u8>>::empty());
        }
        r
    }

    /// The position of `id`'s document, if open.
    fn find(&self, id: &DocId) -> (r: Option<usize>)
        ensures
            match r {
                Some(i) => i < self.docs_seq().len() && self.docs_seq()[i as int].0 == id@,
                None => forall|j: int| 0 <= j < self.docs_seq().len() ==> self.docs_seq()[j].0
                    != id@,
            },
    {
        let n = self.docs.len();
        let mut i: usize = 0;
        while i < n
            invariant
                n == self.docs@.len(),
                n == self.docs_seq().len(),
                0 <= i <= n,
                forall|j: int| 0 <= j < i ==> self.docs_seq()[j].0 != id@,
                forall|j: int| 0 <= j < n ==> self.docs_seq()[j].0 == #[trigger] self.docs@[j].0@,
            decreases n - i,
        {
            if self.docs[i].0.same(id) {
                return Some(i);
            }
            i += 1;
        }
        None
    }

    /// Replaces or creates `id`'s document with the given text, parsed
    /// trivially: this overlay's representation carries the text itself.
    fn store(&mut self, id: &DocId, text: Vec<u8>)
        requires
            old(self).inv(),
        ensures
            final(self).inv(),
            final(self).docs_map() == old(self).docs_map().insert(id@, (text@, text@)),
    {
        let raw = RawContent::new(text.clone());
        let source = Source::new(text);
        let ghost pre = self.docs_seq();
        match self.find(id) {
            Some(i) => {
                let (key, _) = self.docs.remove(i);
                self.docs.insert(i, (key, (raw, source)));
                proof {
                    assert(self.docs_seq() =~= pre.update(i as int, (id@, (raw@, source@))));
                    lemma_pairs_map_update(pre, i as int, (raw@, source@));
                }
            },
            None => {
                self.docs.push((id.clone(), (raw, source)));
                proof {
                    let post = self.docs_seq();
                    assert(post =~= pre.push((id@, (raw@, source@))));
                    lemma_pairs_map_push(pre, id@, (raw@, source@));
                    assert forall|p: int, q: int| 0 <= p < q < post.len() implies post[p].0
                        != post[q].0 by {
                        if q < pre.len() {
                            assert(post[p] == pre[p] && post[q] == pre[q]);
                        } else {
                            assert(post[p] == pre[p] && post[q].0 == id@);
                        }
                    }
                }
            },
        }
    }
}

impl Provider for MemOverlay {
    open spec fn inv(&self) -> bool {
        distinct_keys(self.docs_seq())
    }
}

impl OverlayProvider for MemOverlay {
    open spec fn managed(&self) -> Set<Seq<u8>> {
        self.docs_map().dom()
    }

    open spec fn bytes_at(&self, id: Seq<u8>) -> Result<Seq<u8>, FileErrorKind> {
        Ok(self.docs_map()[id].0)
    }

    open spec fn source_at(&self, id: Seq<u8>) -> Result<Seq<u8>, FileErrorKind> {
        Ok(self.docs_map()[id].1)
    }

    fn read_bytes(&self, id: &DocId) -> (r: OverlayRead<RawContent>) {
        match self.find(id) {
            Some(i) => {
                proof {
                    lemma_pairs_map_index(self.docs_seq(), i as int);
                }
                OverlayRead::Hit(self.docs[i].1.0.clone())
            },
            None => {
                proof {
                    lemma_pairs_map_contains(self.docs_seq(), id@);
                }
                OverlayRead::Miss
            },
        }
    }

    fn read_source(&self, id: &DocId, _ctx: &ProjectContext) -> (r: OverlayRead<Source>) {
        match self.find(id) {
            Some(i) => {
                proof {
                    lemma_pairs_map_index(self.docs_seq(), i as int);
                }
                OverlayRead::Hit(self.docs[i].1.1.clone())
            },
            None => {
                proof {
                    lemma_pairs_map_contains(self.docs_seq(), id@);
                }
                OverlayRead::Miss
            },
        }
    }

    fn known_ids(&self) -> (r: Vec<DocId>) {
        let n = self.docs.len();
        let mut r: Vec<DocId> = Vec::new();
        let mut i: usize = 0;
        while i < n
            invariant
                n == self.docs@.len(),
                n == self.docs_seq().len(),
                0 <= i <= n,
                r@.len() == i,
                forall|j: int| 0 <= j < i ==> r@[j]@ == self.docs_seq()[j].0,
                forall|j: int| 0 <= j < n ==> self.docs_seq()[j].0 == #[trigger] self.docs@[j].0@,
                distinct_keys(self.docs_seq()),
            decreases n - i,
        {
            r.push(self.docs[i].0.clone());
            i += 1;
        }
        proof {
            assert forall|k: Seq<u8>| ids_set(r@).contains(k) implies self.managed().contains(
                k,
            ) by {
                let j = choose|j: int| 0 <= j < r@.len() && r@[j]@ == k;
                lemma_pairs_map_index(self.docs_seq(), j);
            }
            assert forall|k: Seq<u8>| self.managed().contains(k) implies ids_set(r@).contains(
                k,
            ) by {
                lemma_pairs_map_contains(self.docs_seq(), k);
                let j = choose|j: int| 0 <= j < self.docs_seq().len() && self.docs_seq()[j].0 == k;
                assert(r@[j]@ == k);
            }
            assert(ids_set(r@) =~= self.managed());
        }
        r
    }

    fn open(&mut self, id: &DocId, text: Vec<u8>, _ctx: &ProjectContext) -> (r: Result<
        (),
        FileErrorKind,
    >) {
        let ghost pre = self.docs_map();
        self.store(id, text);
        proof {
            assert(self.managed() =~= pre.dom().insert(id@));
        }
        Ok(())
    }

    fn close(&mut self, id: &DocId) {
        let ghost pre = self.docs_seq();
        match self.find(id) {
            Some(i) => {
                let _ = self.docs.remove(i);
                proof {
                    assert(self.docs_seq() =~= pre.remove(i as int));
                    lemma_pairs_map_remove(pre, i as int);
                    assert(self.managed() =~= pairs_map(pre).dom().remove(id@));
                }
            },
            None => {
                proof {
                    lemma_pairs_map_contains(pre, id@);
                    assert(self.managed() =~= pairs_map(pre).dom().remove(id@));
                }
            },
        }
    }

    open spec fn edit_effect(
        pre: Self,
        post: Self,
        id: DocId,
        changes: Vec<TextChange>,
        encoding: PositionEncoding,
    ) -> bool {
        if pre.docs_map().contains_key(id@) && changes@.len() > 0 {
            post.docs_map() == pre.docs_map().insert(
                id@,
                (changes@.last().text@, changes@.last().text@),
            )
        } else {
            post.docs_map() == pre.docs_map()
        }
    }

    fn edit(&mut self, id: &DocId, changes: Vec<TextChange>, _encoding: PositionEncoding) {
        let ghost preseq = self.docs_seq();
        let ghost pre = self.docs_map();
        match self.find(id) {
            Some(i) => {
                proof {
                    lemma_pairs_map_index(preseq, i as int);
                }
                let mut pending = changes;
                match pending.pop() {
                    Some(tc) => {
                        self.store(id, tc.text);
                        proof {
                            assert(self.managed() =~= pre.dom());
                        }
                    },
                    None => {},
                }
            },
            None => {
                proof {
                    lemma_pairs_map_contains(preseq, id@);
                }
            },
        }
    }

    fn clear(&mut self) {
        self.docs.clear();
        proof {
            assert(self.docs_seq() =~= Seq::<(Seq<u8>, (Seq<u8>, Seq<u8>))>::empty());
            assert(self.managed() =~= Set::<Seq<u8>>::empty());
        }
    }
}

/// An in-memory inner provider for exercising the cache: it serves the
/// documents put into it, fails its next read on request (once), and counts
/// how often each kind of read reached it.
pub struct MemProvider {
    files: Vec<(DocId, Vec<u8>)>,
    fail_next: Option<FileErrorKind>,
    bytes_calls: u64,
    source_calls: u64,
}

impl MemProvider {
    /// The stored pairs, by their views: identifier and content.
    pub closed spec fn files_seq(&self) -> Seq<(Seq<u8>, Seq<u8>)> {
        self.files@.map_values(|p: (DocId, Vec<u8>)| (p.0@, p.1@))
    }

    /// The stored content the pairs denote.
    pub open spec fn stored(&self) -> Map<Seq<u8>, Seq<u8>> {
        pairs_map(self.files_seq())
    }

    /// An empty provider that has answered nothing yet.
    pub fn new() -> (r: MemProvider)
        ensures
            r.inv(),
            r.stored() == Map::<Seq<u8>, Seq<u8>>::empty(),
    {
        let r = MemProvider { files: Vec::new(), fail_next: None, bytes_calls: 0, source_calls: 0 };
        proof {
            assert(r.files_seq() =~= Seq::<(Seq<u8>, Seq<u8>)>::empty());
        }
        r
    }

    /// The position of `id`'s stored document, if any.
    fn find(&self, id: &DocId) -> (r: Option<usize>)
        ensures
            match r {
                Some(i) => i < self.files_seq().len() && self.files_seq()[i as int].0 == id@,
                None => forall|j: int| 0 <= j < self.files_seq().len() ==> self.files_seq()[j].0
                    != id@,
            },
    {
        let n = self.files.len();
        let mut i: usize = 0;
        while i < n
            invariant
                n == self.files@.len(),
                n == self.files_seq().len(),
                0 <= i <= n,
                forall|j: int| 0 <= j < i ==> self.files_seq()[j].0 != id@,
                forall|j: int| 0 <= j < n ==> self.files_seq()[j].0 == #[trigger] self.files@[j].0@,
            decreases n - i,
        {
            if self.files[i].0.same(id) {
                return Some(i);
            }
            i += 1;
        }
        None
    }

    /// Sets the stored content of `id`'s document.
    pub fn put(&mut self, id: &DocId, data: Vec<u8>)
        requires
            old(self).inv(),
        ensures
            final(self).inv(),
            final(self).stored() == old(self).stored().insert(id@, data@),
    {
        let ghost pre = self.files_seq();
        match self.find(id) {
            Some(i) => {
                let (key, _) = self.files.remove(i);
                self.files.insert(i, (key, data));
                proof {
                    assert(self.files_seq() =~= pre.update(i as int, (id@, data@)));
                    lemma_pairs_map_update(pre, i as int, data@);
                }
            },
            None => {
                self.files.push((id.clone(), data));
                proof {
                    let post = self.files_seq();
                    assert(post =~= pre.push((id@, data@)));
                    lemma_pairs_map_push(pre, id@, data@);
                    assert forall|p: int, q: int| 0 <= p < q < post.len() implies post[p].0
                        != post[q].0 by {
                        if q < pre.len() {
                            assert(post[p] == pre[p] && post[q] == pre[q]);
                        } else {
                            assert(post[p] == pre[p] && post[q].0 == id@);
                        }
                    }
                }
            },
        }
    }

    /// Makes the next read (of either kind) fail once with `e`.
    pub fn fail_once(&mut self, e: FileErrorKind)
        ensures
            final(self).inv() == old(self).inv(),
            final(self).stored() == old(self).stored(),
    {
        self.fail_next = Some(e);
    }

    /// How many raw reads reached this provider.
    pub fn bytes_calls(&self) -> u64 {
        self.bytes_calls
    }

    /// How many parsed reads reached this provider.
    pub fn source_calls(&self) -> u64 {
        self.source_calls
    }

    /// The stored content of `id`'s document, if any.
    fn lookup(&self, id: &DocId) -> (r: Option<Vec<u8>>) {
        match self.find(id) {
            Some(i) => Some(self.files[i].1.clone()),
            None => None,
        }
    }

    /// Consumes the scripted failure, if one is pending.
    fn take_failure(&mut self) -> (r: Option<FileErrorKind>)
        ensures
            final(self).files_seq() == old(self).files_seq(),
    {
        let f = self.fail_next;
        self.fail_next = None;
        f
    }
}

impl Provider for MemProvider {
    open spec fn inv(&self) -> bool {
        distinct_keys(self.files_seq())
    }
}

impl ReadProvider for MemProvider {
    fn read_bytes(&mut self, id: &DocId) -> (r: Result<RawContent, FileErrorKind>) {
        if self.bytes_calls < u64::MAX {
            self.bytes_calls = self.bytes_calls + 1;
        }
        match self.take_failure() {
            Some(e) => Err(e),
            None => match self.lookup(id) {
                Some(data) => Ok(RawContent::new(data)),
                None => Err(FileErrorKind::NotFound),
            },
        }
    }

    fn read_source(&mut self, id: &DocId, _ctx: &ProjectContext) -> (r: Result<
        Source,
        FileErrorKind,
    >) {
        if self.source_calls < u64::MAX {
            self.source_calls = self.source_calls + 1;
        }
        match self.take_failure() {
            Some(e) => Err(e),
            None => match self.lookup(id) {
                Some(data) => Ok(Source::new(data)),
                None => Err(FileErrorKind::NotFound),
            },
        }
    }
}

impl WriteProvider for MemProvider {
    open spec fn write_effect(
        pre: Self,
        post: Self,
        id: DocId,
        data: Vec<u8>,
        r: Result<(), FileErrorKind>,
    ) -> bool {
        &&& r is Ok
        &&& post.stored() == pre.stored().insert(id@, data@)
    }

    fn write_raw(&mut self, id: &DocId, data: &Vec<u8>) -> (r: Result<(), FileErrorKind>) {
        let copy = data.clone();
        proof {
            assert(copy@ =~= data@);
        }
        self.put(id, copy);
        Ok(())
    }
}

} // verus!
