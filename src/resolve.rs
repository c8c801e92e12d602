//! Request resolution: which asset, if any, answers a request path.
use vstd::prelude::*;
use vstd::string::StrSliceExecFns;
use vstd::string::StringExecFns;

use crate::store::copy_bytes;
use crate::store::AssetStore;

verus! {

/// The name under which the store holds the root document.
pub const ROOT_DOCUMENT_NAME: &'static str = "index.html";

/// The content type that the extension table gives a path, or the generic
/// binary type where it gives none.
pub uninterp spec fn content_type_of(path: Seq<char>) -> Seq<char>;

/// Relies on mime_guess::from_path and MimeGuess::first_or_octet_stream: the
/// first type that the extension table lists for the path's extension, else
/// `application/octet-stream`; the table is fixed, so the result depends on
/// the path alone.
#[verifier::external_body]
fn guess_content_type(path: &str) -> (r: String)
    ensures
        r@ == content_type_of(path@),
{
    mime_guess::from_path(path).first_or_octet_stream().as_ref().to_string()
}

/// The root document's name as characters.
pub open spec fn root_document_name() -> Seq<char> {
    ROOT_DOCUMENT_NAME@
}

/// A request path with a single leading separator taken off.
pub open spec fn normalized(path: Seq<char>) -> Seq<char> {
    if path.len() > 0 && path[0] == '/' {
        path.skip(1)
    } else {
        path
    }
}

/// Whether a normalized path asks for the root document by name.
pub open spec fn names_root_document(path: Seq<char>) -> bool {
    path.len() == 0 || path == root_document_name()
}

/// What a request is answered with.
pub enum Outcome {
    /// The stored bytes of an asset, with the content type to send them under.
    ServeAsset { bytes: Vec<u8>, content_type: String },
    /// The (possibly transformed) root document.
    ServeRootDocument,
    /// Nothing is served: the path names a file that the store lacks.
    NotFound,
}

/// The answer to a request for `path` from a store whose contents are `assets`,
/// with the bytes and content type of an asset given as views.
pub enum Resolution {
    Asset(Seq<u8>, Seq<char>),
    RootDocument,
    Missing,
}

/// How a request path resolves: the root document when it is named, a
/// stored asset when the store holds the path, and otherwise nothing for a
/// path with a `.` (a file reference) and the root document for any other
/// path (a client-side route).
pub open spec fn resolution(assets: Map<Seq<char>, Seq<u8>>, path: Seq<char>) -> Resolution {
    let n = normalized(path);
    if names_root_document(n) {
        Resolution::RootDocument
    } else if assets.contains_key(n) {
        Resolution::Asset(assets[n], content_type_of(n))
    } else if n.contains('.') {
        Resolution::Missing
    } else {
        Resolution::RootDocument
    }
}

impl Outcome {
    /// This outcome with its bytes and content type seen as views.
    pub open spec fn resolution(&self) -> Resolution {
        match self {
            Outcome::ServeAsset { bytes, content_type } => Resolution::Asset(bytes@, content_type@),
            Outcome::ServeRootDocument => Resolution::RootDocument,
            Outcome::NotFound => Resolution::Missing,
        }
    }
}

/// Takes off a single leading `/`.
pub fn normalize_path(path: &str) -> (r: String)
    ensures
        r@ == normalized(path@),
{
    let len = path.unicode_len();
    if len > 0 && path.get_char(0) == '/' {
        String::from_str(path.substring_char(1, len))
    } else {
        String::from_str(path)
    }
}

/// Whether `c` occurs in `s`.
pub fn contains_char(s: &str, c: char) -> (r: bool)
    ensures
        r == s@.contains(c),
{
    let len = s.unicode_len();
    let mut i: usize = 0;
    while i < len
        invariant
            i <= len,
            len == s@.len(),
            forall|j: int| 0 <= j < i ==> s@[j] != c,
        decreases len - i,
    {
        if s.get_char(i) == c {
            return true;
        }
        i = i + 1;
    }
    false
}

/// Decides how a request for `path` is answered from `store`.
pub fn resolve(store: &AssetStore, path: &str) -> (r: Outcome)
    ensures
        r.resolution() == resolution(store@, path@),
{
    let n = normalize_path(path);
    let root = String::from_str(ROOT_DOCUMENT_NAME);
    if n.unicode_len() == 0 || n == root {
        return Outcome::ServeRootDocument;
    }
    match store.get(&n) {
        Some(bytes) => {
            let content_type = guess_content_type(n.as_str());
            Outcome::ServeAsset { bytes: copy_bytes(bytes), content_type }
        },
        None => {
            if contains_char(n.as_str(), '.') {
                Outcome::NotFound
            } else {
                Outcome::ServeRootDocument
            }
        },
    }
}

} // verus!
