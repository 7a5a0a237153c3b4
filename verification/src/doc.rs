//! Plain data carried through the workspace: document identifiers, raw
//! content, parsed representations, and the error taxonomy of file reads.

use vstd::prelude::*;

verus! {

/// Why a provider-level read or write failed.
///
/// A distinguished non-error *miss* outcome (an overlay saying "I do not
/// manage this document") is deliberately **not** part of this enum: a miss
/// and an error must never be conflated, or read fallback would break.
#[derive(Clone, Copy, Debug, PartialEq, Eq, Structural)]
pub enum FileErrorKind {
    /// The document does not exist in the provider.
    NotFound,
    /// The provider holds the document but refuses access.
    AccessDenied,
    /// The bytes were not validly encoded, or parsing failed.
    InvalidEncoding,
    /// An input/output fault while reading or writing.
    Io,
    /// Any other provider-specific failure.
    Other,
}

/// An opaque, comparable key uniquely naming a logical document across both
/// the overlay and the disk view: the document's URI, held as its bytes.
///
/// Identical identifiers must refer to the same logical document in every
/// provider; producing them from host paths is the embedder's concern.
pub struct DocId {
    uri: Vec<u8>,
}

impl View for DocId {
    type V = Seq<u8>;

    closed spec fn view(&self) -> Seq<u8> {
        self.uri@
    }
}

impl DocId {
    /// Wraps the bytes of a URI as a document identifier.
    pub fn new(uri: Vec<u8>) -> (r: DocId)
        ensures
            r@ == uri@,
    {
        DocId { uri }
    }

    /// The identifier's bytes.
    pub fn as_bytes(&self) -> (r: &Vec<u8>)
        ensures
            r@ == self@,
    {
        &self.uri
    }

    /// Whether two identifiers name the same logical document.
    pub fn same(&self, other: &DocId) -> (r: bool)
        ensures
            r == (self@ == other@),
    {
        eq_bytes(&self.uri, &other.uri)
    }
}

impl Clone for DocId {
    fn clone(&self) -> (r: Self)
        ensures
            r@ == self@,
    {
        DocId { uri: self.uri.clone() }
    }
}

/// Compares two byte vectors element by element.
fn eq_bytes(a: &Vec<u8>, b: &Vec<u8>) -> (r: bool)
    ensures
        r == (a@ == b@),
{
    if a.len() != b.len() {
        assert(a@ != b@) by {
            assert(a@.len() != b@.len());
        }
        return false;
    }
    let n = a.len();
    let mut i: usize = 0;
    while i < n
        invariant
            n == a@.len(),
            n == b@.len(),
            0 <= i <= n,
            forall|j: int| 0 <= j < i ==> a@[j] == b@[j],
        decreases n - i,
    {
        if a[i] != b[i] {
            return false;
        }
        i += 1;
    }
    assert(a@ =~= b@);
    true
}

/// The set of identifier views a sequence of identifiers denotes.
pub open spec fn ids_set(s: Seq<DocId>) -> Set<Seq<u8>> {
    Set::new(|k: Seq<u8>| exists|i: int| 0 <= i < s.len() && s[i]@ == k)
}

/// No two identifiers in the sequence name the same document.
pub open spec fn distinct_ids(s: Seq<DocId>) -> bool {
    forall|i: int, j: int| 0 <= i < j < s.len() ==> s[i]@ != s[j]@
}

/// Appending an identifier inserts its view into the denoted set.
pub proof fn lemma_ids_set_push(s: Seq<DocId>, x: DocId)
    ensures
        ids_set(s.push(x)) == ids_set(s).insert(x@),
{
    assert forall|k: Seq<u8>| ids_set(s.push(x)).contains(k) implies ids_set(s).insert(
        x@,
    ).contains(k) by {
        let i = choose|i: int| 0 <= i < s.push(x).len() && s.push(x)[i]@ == k;
        if i < s.len() {
            assert(s[i]@ == k);
        }
    }
    assert forall|k: Seq<u8>| ids_set(s).insert(x@).contains(k) implies ids_set(s.push(x)).contains(
        k,
    ) by {
        if k == x@ {
            assert(s.push(x)[s.len() as int]@ == k);
        } else {
            let i = choose|i: int| 0 <= i < s.len() && s[i]@ == k;
            assert(s.push(x)[i]@ == k);
        }
    }
    assert(ids_set(s.push(x)) =~= ids_set(s).insert(x@));
}

/// An immutable byte sequence for a document: what `read_bytes` returns.
pub struct RawContent {
    data: Vec<u8>,
}

impl View for RawContent {
    type V = Seq<u8>;

    closed spec fn view(&self) -> Seq<u8> {
        self.data@
    }
}

impl RawContent {
    /// Wraps raw bytes as document content.
    pub fn new(data: Vec<u8>) -> (r: RawContent)
        ensures
            r@ == data@,
    {
        RawContent { data }
    }

    /// The content's bytes.
    pub fn as_bytes(&self) -> (r: &Vec<u8>)
        ensures
            r@ == self@,
    {
        &self.data
    }
}

impl Clone for RawContent {
    fn clone(&self) -> (r: Self)
        ensures
            r@ == self@,
    {
        RawContent { data: self.data.clone() }
    }
}

/// A parsed representation of a document, derived from raw content plus a
/// project context by an opaque, possibly-failing, pure parse owned by the
/// providers. This layer never looks inside it beyond the text it carries.
pub struct Source {
    text: Vec<u8>,
}

impl View for Source {
    type V = Seq<u8>;

    closed spec fn view(&self) -> Seq<u8> {
        self.text@
    }
}

impl Source {
    /// Wraps the text a parsed representation was derived from.
    pub fn new(text: Vec<u8>) -> (r: Source)
        ensures
            r@ == text@,
    {
        Source { text }
    }

    /// The text the representation was derived from.
    pub fn as_bytes(&self) -> (r: &Vec<u8>)
        ensures
            r@ == self@,
    {
        &self.text
    }
}

impl Clone for Source {
    fn clone(&self) -> (r: Self)
        ensures
            r@ == self@,
    {
        Source { text: self.text.clone() }
    }
}

/// External resolution context handed through to `read_source`, enabling
/// cross-document resolution during parsing. This layer passes it along
/// unmodified and assumes only "same context, same bytes: same parse result".
pub struct ProjectContext {
    token: u64,
}

impl View for ProjectContext {
    type V = u64;

    closed spec fn view(&self) -> u64 {
        self.token
    }
}

impl ProjectContext {
    /// Wraps the external project manager's context token.
    pub fn new(token: u64) -> (r: ProjectContext)
        ensures
            r@ == token,
    {
        ProjectContext { token }
    }
}

/// How character offsets in edit ranges are counted by the editor host.
#[derive(Clone, Copy, Debug, PartialEq, Eq, Structural)]
pub enum PositionEncoding {
    /// Offsets count UTF-8 code units.
    Utf8,
    /// Offsets count UTF-16 code units.
    Utf16,
}

/// A half-open region of a document, in lines and characters.
#[derive(Clone, Copy, Debug, PartialEq, Eq, Structural)]
pub struct DocRange {
    pub start_line: u64,
    pub start_character: u64,
    pub end_line: u64,
    pub end_character: u64,
}

/// One content change reported by the editor: replacement text for a region,
/// or for the whole document when no range is given.
pub struct TextChange {
    pub range: Option<DocRange>,
    pub text: Vec<u8>,
}

} // verus!
