//! The per-document memoization cache.
//!
//! `Cache` wraps one inner [`ReadProvider`] and guarantees at most one
//! successful inner read per document per invalidation epoch: each document's
//! entry holds a raw-content memo and a parsed-representation memo, each
//! lazily filled on first successful read, cleared by `invalidate`, and
//! removed by `delete`. A failed inner read is propagated and never stored,
//! so a later call retries the inner provider.

use vstd::prelude::*;

use crate::doc::DocId;
use crate::doc::FileErrorKind;
use crate::doc::ProjectContext;
use crate::doc::RawContent;
use crate::doc::Source;
use crate::doc::distinct_ids;
use crate::doc::ids_set;
use crate::keymap::distinct_keys;
use crate::keymap::lemma_pairs_map_contains;
use crate::keymap::lemma_pairs_map_index;
use crate::keymap::lemma_pairs_map_push;
use crate::keymap::lemma_pairs_map_remove;
use crate::keymap::lemma_pairs_map_update;
use crate::keymap::pairs_map;
use crate::provider::KnownUriProvider;
use crate::provider::Provider;
use crate::provider::ReadProvider;
use crate::provider::WriteProvider;

verus! {

/// What one cache entry holds: at most one raw-content memo and at most one
/// parsed-representation memo, each given by the bytes it carries.
pub ghost struct EntryView {
    pub bytes: Option<Seq<u8>>,
    pub source: Option<Seq<u8>>,
}

impl EntryView {
    /// An entry with both memos unfilled.
    pub open spec fn empty() -> EntryView {
        EntryView { bytes: None, source: None }
    }
}

/// How one provider outcome changes a memo slot: an existing memo wins and
/// the outcome is discarded; a fresh success is stored; a failure leaves the
/// slot empty.
pub open spec fn slot_after<T>(memo: Option<T>, fetched: Result<T, FileErrorKind>) -> Option<T> {
    match memo {
        Some(v) => Some(v),
        None => match fetched {
            Ok(v) => Some(v),
            Err(_) => None,
        },
    }
}

/// What a memoized read of a slot returns: the existing memo if present,
/// else the provider's outcome.
pub open spec fn slot_result<T>(memo: Option<T>, fetched: Result<T, FileErrorKind>) -> Result<
    T,
    FileErrorKind,
> {
    match memo {
        Some(v) => Ok(v),
        None => fetched,
    }
}

/// At most one successful read per slot per epoch: once a read of a slot has
/// succeeded, every later read of it returns that same value and changes
/// nothing, whatever the provider would have answered — so the provider is
/// never consulted again.
pub proof fn lemma_at_most_one_successful_read<T>(
    memo: Option<T>,
    first: Result<T, FileErrorKind>,
    later: Result<T, FileErrorKind>,
)
    requires
        slot_result(memo, first) is Ok,
    ensures
        slot_after(memo, first) is Some,
        slot_result(slot_after(memo, first), later) == slot_result(memo, first),
        slot_after(slot_after(memo, first), later) == slot_after(memo, first),
{
}

/// Invalidation freshness: a cleared slot forwards exactly the provider's
/// next outcome, storing it only on success.
pub proof fn lemma_invalidation_freshness<T>(fetched: Result<T, FileErrorKind>)
    ensures
        slot_result(None::<T>, fetched) == fetched,
        fetched matches Ok(v) ==> slot_after(None::<T>, fetched) == Some(v),
        fetched is Err ==> slot_after(None::<T>, fetched) is None,
{
}

/// Failure non-poisoning: a failed fill is returned but not stored, so a
/// later successful fill of the same slot is returned and stored.
pub proof fn lemma_failure_non_poisoning<T>(e: FileErrorKind, v: T)
    ensures
        slot_after(None::<T>, Err(e)) is None,
        slot_result(None::<T>, Err(e)) == Err::<T, FileErrorKind>(e),
        slot_result(slot_after(None::<T>, Err(e)), Ok(v)) == Ok::<T, FileErrorKind>(v),
        slot_after(slot_after(None::<T>, Err(e)), Ok(v)) == Some(v),
{
}

/// Deletion removes state: removing a document's entry takes it — and only
/// it — out of the known set, and a later read or registration for it starts
/// from a fresh empty entry.
pub proof fn lemma_deletion_removes_known(m: Map<Seq<u8>, EntryView>, k: Seq<u8>)
    ensures
        !m.remove(k).dom().contains(k),
        forall|k2: Seq<u8>|
            k2 != k ==> #[trigger] m.remove(k).dom().contains(k2) == m.dom().contains(k2),
        entry_or_empty(m.remove(k), k) == EntryView::empty(),
{
}

/// The raw-content memo and parsed-representation memo for one document.
pub struct CacheEntry {
    bytes: Option<RawContent>,
    source: Option<Source>,
}

impl View for CacheEntry {
    type V = EntryView;

    closed spec fn view(&self) -> EntryView {
        EntryView {
            bytes: match self.bytes {
                Some(c) => Some(c@),
                None => None,
            },
            source: match self.source {
                Some(s) => Some(s@),
                None => None,
            },
        }
    }
}

/// A provider outcome, by the bytes it carries.
pub open spec fn bytes_outcome(r: Result<RawContent, FileErrorKind>) -> Result<
    Seq<u8>,
    FileErrorKind,
> {
    match r {
        Ok(c) => Ok(c@),
        Err(e) => Err(e),
    }
}

/// A parsed-representation outcome, by the text it carries.
pub open spec fn source_outcome(r: Result<Source, FileErrorKind>) -> Result<
    Seq<u8>,
    FileErrorKind,
> {
    match r {
        Ok(s) => Ok(s@),
        Err(e) => Err(e),
    }
}

impl CacheEntry {
    /// A fresh entry with both memos unfilled.
    pub fn empty() -> (r: CacheEntry)
        ensures
            r@ == EntryView::empty(),
    {
        CacheEntry { bytes: None, source: None }
    }

    /// Folds one provider outcome into the raw-content memo, exactly as
    /// [`slot_after`] and [`slot_result`] say.
    pub fn apply_bytes(&mut self, fetched: Result<RawContent, FileErrorKind>) -> (r: Result<
        RawContent,
        FileErrorKind,
    >)
        ensures
            final(self)@.source == old(self)@.source,
            final(self)@.bytes == slot_after(old(self)@.bytes, bytes_outcome(fetched)),
            bytes_outcome(r) == slot_result(old(self)@.bytes, bytes_outcome(fetched)),
    {
        match &self.bytes {
            Some(c) => Ok(c.clone()),
            None => match fetched {
                Ok(c) => {
                    let out = c.clone();
                    self.bytes = Some(c);
                    Ok(out)
                },
                Err(e) => Err(e),
            },
        }
    }

    /// Folds one provider outcome into the parsed-representation memo,
    /// exactly as [`slot_after`] and [`slot_result`] say.
    pub fn apply_source(&mut self, fetched: Result<Source, FileErrorKind>) -> (r: Result<
        Source,
        FileErrorKind,
    >)
        ensures
            final(self)@.bytes == old(self)@.bytes,
            final(self)@.source == slot_after(old(self)@.source, source_outcome(fetched)),
            source_outcome(r) == slot_result(old(self)@.source, source_outcome(fetched)),
    {
        match &self.source {
            Some(s) => Ok(s.clone()),
            None => match fetched {
                Ok(s) => {
                    let out = s.clone();
                    self.source = Some(s);
                    Ok(out)
                },
                Err(e) => Err(e),
            },
        }
    }

    /// Memoized raw read: returns the memo if present without consulting the
    /// provider, else forwards one provider outcome through [`apply_bytes`].
    pub fn read_bytes<Fs: ReadProvider>(&mut self, id: &DocId, fs: &mut Fs) -> (r: Result<
        RawContent,
        FileErrorKind,
    >)
        requires
            old(fs).inv(),
        ensures
            final(fs).inv(),
            final(self)@.source == old(self)@.source,
            old(self)@.bytes is Some ==> final(self)@ == old(self)@ && *final(fs) == *old(fs),
            old(self)@.bytes matches Some(v) ==> bytes_outcome(r) == Ok::<Seq<u8>, FileErrorKind>(
                v,
            ),
            old(self)@.bytes is None ==> final(self)@.bytes == slot_after(
                old(self)@.bytes,
                bytes_outcome(r),
            ),
    {
        if self.bytes.is_some() {
            match &self.bytes {
                Some(c) => Ok(c.clone()),
                None => Err(FileErrorKind::Other),
            }
        } else {
            let fetched = fs.read_bytes(id);
            self.apply_bytes(fetched)
        }
    }

    /// Memoized parsed read, the same policy as [`CacheEntry::read_bytes`]
    /// for the parsed-representation memo.
    pub fn read_source<Fs: ReadProvider>(
        &mut self,
        id: &DocId,
        fs: &mut Fs,
        ctx: &ProjectContext,
    ) -> (r: Result<Source, FileErrorKind>)
        requires
            old(fs).inv(),
        ensures
            final(fs).inv(),
            final(self)@.bytes == old(self)@.bytes,
            old(self)@.source is Some ==> final(self)@ == old(self)@ && *final(fs) == *old(fs),
            old(self)@.source matches Some(v) ==> source_outcome(r) == Ok::<
                Seq<u8>,
                FileErrorKind,
            >(v),
            old(self)@.source is None ==> final(self)@.source == slot_after(
                old(self)@.source,
                source_outcome(r),
            ),
    {
        if self.source.is_some() {
            match &self.source {
                Some(s) => Ok(s.clone()),
                None => Err(FileErrorKind::Other),
            }
        } else {
            let fetched = fs.read_source(id, ctx);
            self.apply_source(fetched)
        }
    }

    /// Resets both memos; the entry itself persists, so the next reads
    /// consult the inner provider afresh.
    pub fn invalidate(&mut self)
        ensures
            final(self)@ == EntryView::empty(),
    {
        self.source = None;
        self.bytes = None;
    }
}

/// The entry a read starts from: the stored one, or a fresh empty one for a
/// document the map does not hold yet.
pub open spec fn entry_or_empty(m: Map<Seq<u8>, EntryView>, k: Seq<u8>) -> EntryView {
    if m.contains_key(k) {
        m[k]
    } else {
        EntryView::empty()
    }
}

/// The per-document map after a memoized raw read of `k` returning `r`:
/// the entry is created if absent, and its raw-content memo follows the slot
/// policy; every other entry is untouched.
pub open spec fn bytes_read_step(
    pre: Map<Seq<u8>, EntryView>,
    k: Seq<u8>,
    r: Result<Seq<u8>, FileErrorKind>,
) -> Map<Seq<u8>, EntryView> {
    let e0 = entry_or_empty(pre, k);
    pre.insert(k, EntryView { bytes: slot_after(e0.bytes, r), source: e0.source })
}

/// The per-document map after a memoized parsed read of `k` returning `r`.
pub open spec fn source_read_step(
    pre: Map<Seq<u8>, EntryView>,
    k: Seq<u8>,
    r: Result<Seq<u8>, FileErrorKind>,
) -> Map<Seq<u8>, EntryView> {
    let e0 = entry_or_empty(pre, k);
    pre.insert(k, EntryView { bytes: e0.bytes, source: slot_after(e0.source, r) })
}

/// Wraps one inner provider and memoizes its reads per document.
///
/// Viewed as a finite map from document identifier to [`EntryView`]; every
/// operation's contract is stated over that map, [`entry_or_empty`] and the
/// slot policy.
pub struct Cache<Fs: ReadProvider> {
    entries: Vec<(DocId, CacheEntry)>,
    fs: Fs,
}

impl<Fs: ReadProvider> View for Cache<Fs> {
    type V = Map<Seq<u8>, EntryView>;

    closed spec fn view(&self) -> Map<Seq<u8>, EntryView> {
        pairs_map(self.entries_seq())
    }
}

impl<Fs: ReadProvider> Cache<Fs> {
    /// The stored pairs, by their views.
    pub closed spec fn entries_seq(&self) -> Seq<(Seq<u8>, EntryView)> {
        self.entries@.map_values(|p: (DocId, CacheEntry)| (p.0@, p.1@))
    }

    /// The inner provider's state.
    pub closed spec fn provider(&self) -> Fs {
        self.fs
    }

    /// Well-formedness: one entry per document, and a well-formed inner
    /// provider.
    pub open spec fn wf(&self) -> bool {
        &&& distinct_keys(self.entries_seq())
        &&& self.provider().inv()
    }

    /// Wraps `fs`, with no entries yet.
    pub fn new(fs: Fs) -> (r: Cache<Fs>)
        requires
            fs.inv(),
        ensures
            r.wf(),
            r@ == Map::<Seq<u8>, EntryView>::empty(),
            r.provider() == fs,
    {
        let r = Cache { entries: Vec::new(), fs };
        proof {
            assert(r.entries_seq() =~= Seq::<(Seq<u8>, EntryView)>::empty());
        }
        r
    }

    /// A reference to the wrapped provider. Writing through it to a cached
    /// document without notifying the cache risks serving a stale memo on the
    /// next read.
    pub fn inner(&self) -> (r: &Fs)
        ensures
            *r == self.provider(),
    {
        &self.fs
    }

    /// The position of `id`'s entry, if the map holds one.
    fn find(&self, id: &DocId) -> (r: Option<usize>)
        ensures
            match r {
                Some(i) => i < self.entries_seq().len() && self.entries_seq()[i as int].0 == id@,
                None => forall|j: int|
                    0 <= j < self.entries_seq().len() ==> self.entries_seq()[j].0 != id@,
            },
    {
        let n = self.entries.len();
        let mut i: usize = 0;
        while i < n
            invariant
                n == self.entries@.len(),
                n == self.entries_seq().len(),
                0 <= i <= n,
                forall|j: int| 0 <= j < i ==> self.entries_seq()[j].0 != id@,
                forall|j: int|
                    0 <= j < n ==> self.entries_seq()[j].0 == #[trigger] self.entries@[j].0@,
            decreases n - i,
        {
            if self.entries[i].0.same(id) {
                return Some(i);
            }
            i += 1;
        }
        None
    }

    /// The position of `id`'s entry, created empty if absent.
    fn find_or_create(&mut self, id: &DocId) -> (r: usize)
        requires
            old(self).wf(),
        ensures
            final(self).wf(),
            final(self).provider() == old(self).provider(),
            r < final(self).entries_seq().len(),
            final(self).entries_seq()[r as int].0 == id@,
            final(self).entries_seq()[r as int].1 == entry_or_empty(old(self)@, id@),
            final(self)@ == old(self)@.insert(id@, entry_or_empty(old(self)@, id@)),
    {
        let ghost pre = self.entries_seq();
        match self.find(id) {
            Some(i) => {
                proof {
                    lemma_pairs_map_index(pre, i as int);
                    assert(self@.insert(id@, entry_or_empty(self@, id@)) =~= self@);
                }
                i
            },
            None => {
                let i = self.entries.len();
                self.entries.push((id.clone(), CacheEntry::empty()));
                proof {
                    let post = self.entries_seq();
                    assert(post =~= pre.push((id@, EntryView::empty())));
                    lemma_pairs_map_push(pre, id@, EntryView::empty());
                    lemma_pairs_map_contains(pre, id@);
                    assert forall|p: int, q: int| 0 <= p < q < post.len() implies post[p].0
                        != post[q].0 by {
                        if q < pre.len() {
                            assert(post[p] == pre[p] && post[q] == pre[q]);
                        } else {
                            assert(post[p] == pre[p] && post[q].0 == id@);
                        }
                    }
                }
                i
            },
        }
    }

    /// Runs `id`'s entry through a raw read against the inner provider,
    /// putting the (possibly changed) entry back in place.
    fn entry_read_bytes(&mut self, idx: usize, id: &DocId) -> (r: Result<
        RawContent,
        FileErrorKind,
    >)
        requires
            old(self).wf(),
            idx < old(self).entries_seq().len(),
            old(self).entries_seq()[idx as int].0 == id@,
        ensures
            final(self).wf(),
            final(self)@ == bytes_read_step(old(self)@, id@, bytes_outcome(r)),
            entry_or_empty(old(self)@, id@).bytes matches Some(v) ==> bytes_outcome(r) == Ok::<
                Seq<u8>,
                FileErrorKind,
            >(v) && final(self).provider() == old(self).provider(),
    {
        let ghost pre = self.entries_seq();
        proof {
            lemma_pairs_map_index(pre, idx as int);
        }
        let (key, mut entry) = self.entries.remove(idx);
        let r = entry.read_bytes(id, &mut self.fs);
        let ghost e1 = entry@;
        self.entries.insert(idx, (key, entry));
        proof {
            assert(self.entries_seq() =~= pre.update(idx as int, (id@, e1)));
            lemma_pairs_map_update(pre, idx as int, e1);
            let e0 = entry_or_empty(pairs_map(pre), id@);
            assert(e0 == pre[idx as int].1);
            assert(e1 == EntryView { bytes: slot_after(e0.bytes, bytes_outcome(r)), source: e0.source });
        }
        r
    }

    /// Runs `id`'s entry through a parsed read against the inner provider.
    fn entry_read_source(&mut self, idx: usize, id: &DocId, ctx: &ProjectContext) -> (r: Result<
        Source,
        FileErrorKind,
    >)
        requires
            old(self).wf(),
            idx < old(self).entries_seq().len(),
            old(self).entries_seq()[idx as int].0 == id@,
        ensures
            final(self).wf(),
            final(self)@ == source_read_step(old(self)@, id@, source_outcome(r)),
            entry_or_empty(old(self)@, id@).source matches Some(v) ==> source_outcome(r) == Ok::<
                Seq<u8>,
                FileErrorKind,
            >(v) && final(self).provider() == old(self).provider(),
    {
        let ghost pre = self.entries_seq();
        proof {
            lemma_pairs_map_index(pre, idx as int);
        }
        let (key, mut entry) = self.entries.remove(idx);
        let r = entry.read_source(id, &mut self.fs, ctx);
        let ghost e1 = entry@;
        self.entries.insert(idx, (key, entry));
        proof {
            assert(self.entries_seq() =~= pre.update(idx as int, (id@, e1)));
            lemma_pairs_map_update(pre, idx as int, e1);
            let e0 = entry_or_empty(pairs_map(pre), id@);
            assert(e0 == pre[idx as int].1);
            assert(e1 == EntryView { bytes: e0.bytes, source: slot_after(e0.source, source_outcome(r)) });
        }
        r
    }

    /// Memoized raw read: looks up or lazily creates `id`'s entry; an
    /// existing memo is returned without consulting the inner provider, a
    /// fresh success is stored, a failure is propagated and not stored.
    pub fn read_bytes_ref(&mut self, id: &DocId) -> (r: Result<RawContent, FileErrorKind>)
        requires
            old(self).wf(),
        ensures
            final(self).wf(),
            final(self)@ == bytes_read_step(old(self)@, id@, bytes_outcome(r)),
            entry_or_empty(old(self)@, id@).bytes matches Some(v) ==> bytes_outcome(r) == Ok::<
                Seq<u8>,
                FileErrorKind,
            >(v) && final(self).provider() == old(self).provider(),
    {
        let ghost pre = self@;
        let idx = self.find_or_create(id);
        let r = self.entry_read_bytes(idx, id);
        proof {
            assert(self@ =~= bytes_read_step(pre, id@, bytes_outcome(r)));
        }
        r
    }

    /// Memoized parsed read, the same policy as [`Cache::read_bytes_ref`]
    /// for the parsed-representation memo.
    pub fn read_source_ref(&mut self, id: &DocId, ctx: &ProjectContext) -> (r: Result<
        Source,
        FileErrorKind,
    >)
        requires
            old(self).wf(),
        ensures
            final(self).wf(),
            final(self)@ == source_read_step(old(self)@, id@, source_outcome(r)),
            entry_or_empty(old(self)@, id@).source matches Some(v) ==> source_outcome(r) == Ok::<
                Seq<u8>,
                FileErrorKind,
            >(v) && final(self).provider() == old(self).provider(),
    {
        let ghost pre = self@;
        let idx = self.find_or_create(id);
        let r = self.entry_read_source(idx, id, ctx);
        proof {
            assert(self@ =~= source_read_step(pre, id@, source_outcome(r)));
        }
        r
    }

    /// Ensures an (empty) entry exists for `id` without populating it, for a
    /// document learned of before any read is requested.
    pub fn cache_new(&mut self, id: &DocId)
        requires
            old(self).wf(),
        ensures
            final(self).wf(),
            final(self).provider() == old(self).provider(),
            final(self)@ == old(self)@.insert(id@, entry_or_empty(old(self)@, id@)),
    {
        let _ = self.find_or_create(id);
    }

    /// If an entry exists for `id`, resets both its memos; the entry itself
    /// persists, so the next reads consult the inner provider afresh. No
    /// entry is created when none exists.
    pub fn invalidate(&mut self, id: &DocId)
        requires
            old(self).wf(),
        ensures
            final(self).wf(),
            final(self).provider() == old(self).provider(),
            old(self)@.contains_key(id@) ==> final(self)@ == old(self)@.insert(
                id@,
                EntryView::empty(),
            ),
            !old(self)@.contains_key(id@) ==> final(self)@ == old(self)@,
    {
        let ghost pre = self.entries_seq();
        match self.find(id) {
            Some(i) => {
                let (key, mut entry) = self.entries.remove(i);
                entry.invalidate();
                self.entries.insert(i, (key, entry));
                proof {
                    lemma_pairs_map_index(pre, i as int);
                    assert(self.entries_seq() =~= pre.update(i as int, (id@, EntryView::empty())));
                    lemma_pairs_map_update(pre, i as int, EntryView::empty());
                }
            },
            None => {
                proof {
                    lemma_pairs_map_contains(pre, id@);
                }
            },
        }
    }

    /// Removes `id`'s entry entirely; a later read recreates a fresh empty
    /// entry from scratch.
    pub fn delete(&mut self, id: &DocId)
        requires
            old(self).wf(),
        ensures
            final(self).wf(),
            final(self).provider() == old(self).provider(),
            final(self)@ == old(self)@.remove(id@),
    {
        let ghost pre = self.entries_seq();
        match self.find(id) {
            Some(i) => {
                let _ = self.entries.remove(i);
                proof {
                    assert(self.entries_seq() =~= pre.remove(i as int));
                    lemma_pairs_map_remove(pre, i as int);
                }
            },
            None => {
                proof {
                    lemma_pairs_map_contains(pre, id@);
                    assert(self@ =~= pairs_map(pre).remove(id@));
                }
            },
        }
    }

    /// Removes all entries.
    pub fn clear(&mut self)
        requires
            old(self).wf(),
        ensures
            final(self).wf(),
            final(self).provider() == old(self).provider(),
            final(self)@ == Map::<Seq<u8>, EntryView>::empty(),
    {
        self.entries.clear();
        proof {
            assert(self.entries_seq() =~= Seq::<(Seq<u8>, EntryView)>::empty());
        }
    }

    /// Lists the documents the cache holds an entry for, each exactly once.
    pub fn known_uris(&self) -> (r: Vec<DocId>)
        requires
            self.wf(),
        ensures
            ids_set(r@) == self@.dom(),
            distinct_ids(r@),
    {
        let n = self.entries.len();
        let mut r: Vec<DocId> = Vec::new();
        let mut i: usize = 0;
        while i < n
            invariant
                n == self.entries@.len(),
                n == self.entries_seq().len(),
                0 <= i <= n,
                r@.len() == i,
                forall|j: int| 0 <= j < i ==> r@[j]@ == self.entries_seq()[j].0,
                forall|j: int|
                    0 <= j < n ==> self.entries_seq()[j].0 == #[trigger] self.entries@[j].0@,
                distinct_keys(self.entries_seq()),
            decreases n - i,
        {
            r.push(self.entries[i].0.clone());
            i += 1;
        }
        proof {
            assert forall|k: Seq<u8>| ids_set(r@).contains(k) implies self@.dom().contains(k) by {
                let j = choose|j: int| 0 <= j < r@.len() && r@[j]@ == k;
                lemma_pairs_map_index(self.entries_seq(), j);
            }
            assert forall|k: Seq<u8>| self@.dom().contains(k) implies ids_set(r@).contains(k) by {
                lemma_pairs_map_contains(self.entries_seq(), k);
                let j = choose|j: int|
                    0 <= j < self.entries_seq().len() && self.entries_seq()[j].0 == k;
                assert(r@[j]@ == k);
            }
            assert(ids_set(r@) =~= self@.dom());
        }
        r
    }
}

impl<Fs: ReadProvider + WriteProvider> Cache<Fs> {
    /// Writes through to the wrapped provider, which receives exactly these
    /// arguments; the entries are deliberately untouched, so a cached
    /// document's memo can serve stale content until an invalidation for it
    /// arrives.
    pub fn write_through(&mut self, id: &DocId, data: &Vec<u8>) -> (r: Result<(), FileErrorKind>)
        requires
            old(self).wf(),
        ensures
            final(self).wf(),
            final(self)@ == old(self)@,
            Fs::write_effect(old(self).provider(), final(self).provider(), *id, *data, r),
    {
        self.fs.write_raw(id, data)
    }
}

impl<Fs: ReadProvider> Provider for Cache<Fs> {
    open spec fn inv(&self) -> bool {
        self.wf()
    }
}

impl<Fs: ReadProvider> ReadProvider for Cache<Fs> {
    fn read_bytes(&mut self, id: &DocId) -> (r: Result<RawContent, FileErrorKind>) {
        self.read_bytes_ref(id)
    }

    fn read_source(&mut self, id: &DocId, ctx: &ProjectContext) -> (r: Result<
        Source,
        FileErrorKind,
    >) {
        self.read_source_ref(id, ctx)
    }
}

impl<Fs: ReadProvider> KnownUriProvider for Cache<Fs> {
    open spec fn known_set(&self) -> Set<Seq<u8>> {
        self@.dom()
    }

    fn known_uris(&self) -> (r: Vec<DocId>) {
        Cache::known_uris(self)
    }
}

/// Writing passes straight through to the wrapped provider when it can
/// write; the entries are deliberately untouched, so a cached document's
/// memo can go stale until the watch bridge delivers an invalidation for it.
impl<Fs: ReadProvider + WriteProvider> WriteProvider for Cache<Fs> {
    open spec fn write_effect(
        pre: Self,
        post: Self,
        id: DocId,
        data: Vec<u8>,
        r: Result<(), FileErrorKind>,
    ) -> bool {
        &&& Fs::write_effect(pre.provider(), post.provider(), id, data, r)
        &&& post@ == pre@
    }

    fn write_raw(&mut self, id: &DocId, data: &Vec<u8>) -> (r: Result<(), FileErrorKind>) {
        self.write_through(id, data)
    }
}

} // verus!
