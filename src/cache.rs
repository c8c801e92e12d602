//! The root document cache: the document is built on first use and kept,
//! unchanged, from then on.
use vstd::prelude::*;

use crate::document::build_root_document;
use crate::document::result_view;
use crate::document::root_document;
use crate::document::AnalyticsConfig;
use crate::document::RootDocumentError;
use crate::store::AssetStore;

verus! {

/// What a request for the document returns, given what the cache holds and
/// what building the document would give.
pub open spec fn served(
    entry: Option<Seq<char>>,
    fresh: Result<Seq<char>, RootDocumentError>,
) -> Result<Seq<char>, RootDocumentError> {
    match entry {
        Some(d) => Ok(d),
        None => fresh,
    }
}

/// What the cache holds after such a request.
pub open spec fn stored(
    entry: Option<Seq<char>>,
    fresh: Result<Seq<char>, RootDocumentError>,
) -> Option<Seq<char>> {
    match served(entry, fresh) {
        Ok(d) => Some(d),
        Err(_) => None,
    }
}

/// The results of successive requests, starting from `entry`, where the
/// `i`th request would build `fresh[i]` if it had to build.
pub open spec fn results(
    entry: Option<Seq<char>>,
    fresh: Seq<Result<Seq<char>, RootDocumentError>>,
) -> Seq<Result<Seq<char>, RootDocumentError>>
    decreases fresh.len(),
{
    if fresh.len() == 0 {
        Seq::empty()
    } else {
        seq![served(entry, fresh[0])] + results(stored(entry, fresh[0]), fresh.skip(1))
    }
}

/// How many of those requests build the document.
pub open spec fn builds(
    entry: Option<Seq<char>>,
    fresh: Seq<Result<Seq<char>, RootDocumentError>>,
) -> nat
    decreases fresh.len(),
{
    if fresh.len() == 0 {
        0
    } else {
        (if entry is None { 1nat } else { 0nat }) + builds(stored(entry, fresh[0]), fresh.skip(1))
    }
}

/// The cache is written at most once: once a request has returned a
/// document, every later request returns that same document without building
/// it again. Starting from an empty cache, where building succeeds, the
/// document is built exactly once however many requests come.
pub proof fn lemma_built_once(
    entry: Option<Seq<char>>,
    fresh: Seq<Result<Seq<char>, RootDocumentError>>,
)
    ensures
        results(entry, fresh).len() == fresh.len(),
        entry matches Some(d) ==> builds(entry, fresh) == 0 && forall|i: int|
            0 <= i < fresh.len() ==> #[trigger] results(entry, fresh)[i] == Ok::<Seq<char>, RootDocumentError>(d),
        forall|i: int, j: int|
            0 <= i < j < fresh.len() && (#[trigger] results(entry, fresh)[i]) is Ok
                ==> #[trigger] results(entry, fresh)[j] == results(entry, fresh)[i],
        entry is None && fresh.len() > 0 && (forall|i: int| 0 <= i < fresh.len() ==> (#[trigger] fresh[i]) is Ok)
            ==> builds(entry, fresh) == 1,
    decreases fresh.len(),
{
    if fresh.len() > 0 {
        let next = stored(entry, fresh[0]);
        let rest = fresh.skip(1);
        lemma_built_once(next, rest);
        let rs = results(entry, fresh);
        assert(rs.len() == fresh.len());
        assert forall|i: int| 1 <= i < fresh.len() implies rs[i] == results(next, rest)[i - 1] by {}
        if served(entry, fresh[0]) is Ok {
            assert(next == Some(served(entry, fresh[0])->Ok_0));
        }
        if entry is None && (forall|i: int| 0 <= i < fresh.len() ==> (#[trigger] fresh[i]) is Ok) {
            assert(fresh[0] is Ok);
        }
    }
}

/// Holds the root document once it has been built.
pub struct RootDocumentCache {
    entry: Option<String>,
}

impl View for RootDocumentCache {
    type V = Option<Seq<char>>;

    closed spec fn view(&self) -> Option<Seq<char>> {
        match self.entry {
            Some(s) => Some(s@),
            None => None,
        }
    }
}

impl RootDocumentCache {
    /// A cache that holds nothing yet.
    pub fn new() -> (r: RootDocumentCache)
        ensures
            r@ is None,
    {
        RootDocumentCache { entry: None }
    }

    /// Whether the document has been built.
    pub fn is_initialized(&self) -> (r: bool)
        ensures
            r == self@ is Some,
    {
        self.entry.is_some()
    }

    /// The root document: the one held, or else the one built now from the
    /// store and the analytics configuration, which is then held.
    pub fn get_or_init(&mut self, store: &AssetStore, config: &AnalyticsConfig) -> (r: Result<String, RootDocumentError>)
        ensures
            result_view(r) == served(old(self)@, root_document(store@, config@)),
            final(self)@ == stored(old(self)@, root_document(store@, config@)),
    {
        match &self.entry {
            Some(d) => Ok(d.clone()),
            None => {
                let built = build_root_document(store, config);
                match built {
                    Ok(d) => {
                        self.entry = Some(d.clone());
                        Ok(d)
                    },
                    Err(e) => Err(e),
                }
            },
        }
    }
}

} // verus!
