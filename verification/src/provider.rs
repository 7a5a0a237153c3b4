//! Provider capability interfaces.
//!
//! Four independent capability contracts that any concrete storage backend
//! may implement a-la-carte, plus the overlay capability whose reads have a
//! distinguished *miss* outcome. Composition holds instances of these
//! capabilities; it never subclasses.

use vstd::prelude::*;

use crate::doc::DocId;
use crate::doc::FileErrorKind;
use crate::doc::PositionEncoding;
use crate::doc::ProjectContext;
use crate::doc::RawContent;
use crate::doc::Source;
use crate::doc::TextChange;
use crate::doc::ids_set;
use crate::doc::distinct_ids;

verus! {

/// Base capability: every provider carries an invariant that its operations
/// preserve.
pub trait Provider: Sized {
    /// The provider's internal well-formedness.
    spec fn inv(&self) -> bool;
}

/// Capability to read raw bytes and parsed representations.
///
/// A provider behind this interface may be backed by a disk and so may answer
/// differently on every call; nothing beyond invariant preservation is
/// promised here. Layers above state what they do with whatever came back.
pub trait ReadProvider: Provider {
    /// Reads the raw content of the document named by `id`.
    fn read_bytes(&mut self, id: &DocId) -> (r: Result<RawContent, FileErrorKind>)
        requires
            old(self).inv(),
        ensures
            final(self).inv(),
    ;

    /// Reads the parsed representation of the document named by `id`,
    /// resolving cross-document references through `ctx`.
    fn read_source(&mut self, id: &DocId, ctx: &ProjectContext) -> (r: Result<
        Source,
        FileErrorKind,
    >)
        requires
            old(self).inv(),
        ensures
            final(self).inv(),
    ;
}

/// Capability to write raw bytes.
pub trait WriteProvider: Provider {
    /// What one write with these arguments does to the provider: each
    /// implementor states how its stored content changes. The write path
    /// above it promises this of the provider it wrote to, so a layer that
    /// did not perform the write cannot meet that promise.
    spec fn write_effect(
        pre: Self,
        post: Self,
        id: DocId,
        data: Vec<u8>,
        r: Result<(), FileErrorKind>,
    ) -> bool;

    /// Writes `data` as the new on-provider content of the document named by
    /// `id`.
    fn write_raw(&mut self, id: &DocId, data: &Vec<u8>) -> (r: Result<(), FileErrorKind>)
        requires
            old(self).inv(),
        ensures
            final(self).inv(),
            Self::write_effect(*old(self), *final(self), *id, *data, r),
    ;
}

/// Capability to enumerate the documents a provider currently knows.
pub trait KnownUriProvider: Provider {
    /// The provider's current view of which documents exist.
    spec fn known_set(&self) -> Set<Seq<u8>>;

    /// Lists the known documents, each exactly once.
    fn known_uris(&self) -> (r: Vec<DocId>)
        requires
            self.inv(),
        ensures
            ids_set(r@) == self.known_set(),
            distinct_ids(r@),
    ;
}

/// Outcome of an overlay read: a *miss* ("I do not manage this document") is
/// a non-error, distinct from every [`FileErrorKind`]; conflating the two
/// would break read fallback.
pub enum OverlayRead<T> {
    /// The overlay does not manage this document; fall through to the next
    /// provider.
    Miss,
    /// The overlay manages this document and read it.
    Hit(T),
    /// The overlay manages this document but the read failed; the error
    /// propagates and is never swallowed to attempt the next provider.
    Fail(FileErrorKind),
}

/// The editor-overlay capability: in-memory content of documents held open in
/// an editor, authoritative while present.
///
/// The overlay's own edit-application logic (incremental patching, position
/// encodings, parsing) is its implementor's concern; this contract fixes only
/// what composition relies on: which documents are managed, what their reads
/// return, and that operations on one document leave the others alone.
pub trait OverlayProvider: Provider {
    /// The set of documents the overlay currently manages.
    spec fn managed(&self) -> Set<Seq<u8>>;

    /// What a raw read of a managed document returns.
    spec fn bytes_at(&self, id: Seq<u8>) -> Result<Seq<u8>, FileErrorKind>;

    /// What a parsed read of a managed document returns, as the text the
    /// representation was derived from.
    spec fn source_at(&self, id: Seq<u8>) -> Result<Seq<u8>, FileErrorKind>;

    /// What one edit with these arguments does to the overlay: each
    /// implementor states how the edited document's content changes. How
    /// changes are applied is the implementor's concern; the composition
    /// above only witnesses that exactly these arguments were delegated.
    spec fn edit_effect(
        pre: Self,
        post: Self,
        id: DocId,
        changes: Vec<TextChange>,
        encoding: PositionEncoding,
    ) -> bool;

    /// Reads raw content, or reports a miss for an unmanaged document.
    fn read_bytes(&self, id: &DocId) -> (r: OverlayRead<RawContent>)
        requires
            self.inv(),
        ensures
            !self.managed().contains(id@) ==> r matches OverlayRead::Miss,
            self.managed().contains(id@) ==> match self.bytes_at(id@) {
                Ok(s) => r matches OverlayRead::Hit(c) && c@ == s,
                Err(e) => r matches OverlayRead::Fail(f) && f == e,
            },
    ;

    /// Reads the parsed representation, or reports a miss for an unmanaged
    /// document.
    fn read_source(&self, id: &DocId, ctx: &ProjectContext) -> (r: OverlayRead<Source>)
        requires
            self.inv(),
        ensures
            !self.managed().contains(id@) ==> r matches OverlayRead::Miss,
            self.managed().contains(id@) ==> match self.source_at(id@) {
                Ok(s) => r matches OverlayRead::Hit(c) && c@ == s,
                Err(e) => r matches OverlayRead::Fail(f) && f == e,
            },
    ;

    /// Lists the managed documents, each exactly once.
    fn known_ids(&self) -> (r: Vec<DocId>)
        requires
            self.inv(),
        ensures
            ids_set(r@) == self.managed(),
            distinct_ids(r@),
    ;

    /// Opens a document with the given live text: on success it becomes
    /// managed and its raw content is that text.
    fn open(&mut self, id: &DocId, text: Vec<u8>, ctx: &ProjectContext) -> (r: Result<
        (),
        FileErrorKind,
    >)
        requires
            old(self).inv(),
        ensures
            final(self).inv(),
            r is Ok ==> final(self).managed() == old(self).managed().insert(id@),
            r is Ok ==> final(self).bytes_at(id@) == Ok::<Seq<u8>, FileErrorKind>(text@),
            r is Err ==> final(self).managed() == old(self).managed(),
            r is Err && old(self).managed().contains(id@) ==> final(self).bytes_at(id@) == old(
                self,
            ).bytes_at(id@) && final(self).source_at(id@) == old(self).source_at(id@),
            forall|k: Seq<u8>|
                k != id@ && old(self).managed().contains(k) ==> #[trigger] final(self).bytes_at(k)
                    == old(self).bytes_at(k),
            forall|k: Seq<u8>|
                k != id@ && old(self).managed().contains(k) ==> #[trigger] final(self).source_at(k)
                    == old(self).source_at(k),
    ;

    /// Closes a document: it is no longer managed.
    fn close(&mut self, id: &DocId)
        requires
            old(self).inv(),
        ensures
            final(self).inv(),
            final(self).managed() == old(self).managed().remove(id@),
            forall|k: Seq<u8>|
                k != id@ && old(self).managed().contains(k) ==> #[trigger] final(self).bytes_at(k)
                    == old(self).bytes_at(k),
            forall|k: Seq<u8>|
                k != id@ && old(self).managed().contains(k) ==> #[trigger] final(self).source_at(k)
                    == old(self).source_at(k),
    ;

    /// Applies editor-reported content changes to a managed document. How
    /// changes are applied is the implementor's concern; which documents are
    /// managed, and every other document's content, stay as they were.
    fn edit(&mut self, id: &DocId, changes: Vec<TextChange>, encoding: PositionEncoding)
        requires
            old(self).inv(),
        ensures
            final(self).inv(),
            final(self).managed() == old(self).managed(),
            Self::edit_effect(*old(self), *final(self), *id, changes, encoding),
            forall|k: Seq<u8>|
                k != id@ && old(self).managed().contains(k) ==> #[trigger] final(self).bytes_at(k)
                    == old(self).bytes_at(k),
            forall|k: Seq<u8>|
                k != id@ && old(self).managed().contains(k) ==> #[trigger] final(self).source_at(k)
                    == old(self).source_at(k),
    ;

    /// Closes every managed document.
    fn clear(&mut self)
        requires
            old(self).inv(),
        ensures
            final(self).inv(),
            final(self).managed() == Set::<Seq<u8>>::empty(),
    ;
}

} // verus!
