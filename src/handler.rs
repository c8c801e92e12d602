//! Turning a resolved request into the status, content type and body of a
//! reply.
use vstd::prelude::*;
use vstd::string::StrSliceExecFns;
use vstd::string::StringExecFns;
use vstd::utf8::encode_utf8;

use crate::cache::served;
use crate::cache::stored;
use crate::cache::RootDocumentCache;
use crate::document::root_document;
use crate::document::AnalyticsConfig;
use crate::document::RootDocumentError;
use crate::resolve::resolution;
use crate::resolve::resolve;
use crate::resolve::Outcome;
use crate::resolve::Resolution;
use crate::store::AssetStore;

verus! {

/// The content type of the root document.
pub const HTML_CONTENT_TYPE: &'static str = "text/html; charset=utf-8";

/// The body of a not-found reply.
pub const NOT_FOUND_BODY: &'static str = "404";

/// An HTTP reply: a status code, the content type header if one is set, and
/// the body.
pub struct Reply {
    pub status: u16,
    pub content_type: Option<String>,
    pub body: Vec<u8>,
}

impl Reply {
    /// Whether this reply has the given status, content type and body.
    pub open spec fn consists_of(&self, status: u16, content_type: Option<Seq<char>>, body: Seq<u8>) -> bool {
        &&& self.status == status
        &&& match self.content_type {
            Some(c) => content_type == Some(c@),
            None => content_type is None,
        }
        &&& self.body@ == body
    }
}

/// The reply owed to a request for `path`: a stored asset with its content
/// type, `404` for a missing file, and otherwise the root document, taken
/// from the cache or built now. Building the root document can fail; that
/// failure is handed back. The cache changes only where it was empty and the
/// document was built.
pub fn static_asset(
    store: &AssetStore,
    cache: &mut RootDocumentCache,
    config: &AnalyticsConfig,
    path: &str,
) -> (r: Result<Reply, RootDocumentError>)
    ensures
        match resolution(store@, path@) {
            Resolution::Asset(bytes, content_type) => r matches Ok(reply) && reply.consists_of(
                200,
                Some(content_type),
                bytes,
            ) && final(cache)@ == old(cache)@,
            Resolution::Missing => r matches Ok(reply) && reply.consists_of(
                404,
                None,
                encode_utf8(NOT_FOUND_BODY@),
            ) && final(cache)@ == old(cache)@,
            Resolution::RootDocument => {
                &&& final(cache)@ == stored(old(cache)@, root_document(store@, config@))
                &&& match served(old(cache)@, root_document(store@, config@)) {
                    Ok(doc) => r matches Ok(reply) && reply.consists_of(
                        200,
                        Some(HTML_CONTENT_TYPE@),
                        encode_utf8(doc),
                    ),
                    Err(e) => r == Err::<Reply, RootDocumentError>(e),
                }
            },
        },
{
    match resolve(store, path) {
        Outcome::ServeAsset { bytes, content_type } => Ok(
            Reply { status: 200, content_type: Some(content_type), body: bytes },
        ),
        Outcome::NotFound => Ok(
            Reply { status: 404, content_type: None, body: NOT_FOUND_BODY.as_bytes_vec() },
        ),
        Outcome::ServeRootDocument => match cache.get_or_init(store, config) {
            Ok(doc) => Ok(
                Reply {
                    status: 200,
                    content_type: Some(String::from_str(HTML_CONTENT_TYPE)),
                    body: doc.as_str().as_bytes_vec(),
                },
            ),
            Err(e) => Err(e),
        },
    }
}

} // verus!
