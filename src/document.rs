//! The root document: decoding it from the store and placing the analytics
//! snippet before the end of its head section.
use vstd::prelude::*;
use vstd::string::StrSliceExecFns;
use vstd::string::StringExecFns;
use vstd::utf8::decode_utf8;
use vstd::utf8::valid_utf8;

use crate::resolve::root_document_name;
use crate::resolve::ROOT_DOCUMENT_NAME;
use crate::store::copy_bytes;
use crate::store::AssetStore;

verus! {

/// The marker that closes the head section.
pub const HEAD_CLOSE: &'static str = "</head>";

/// Whether `marker` occurs in `s` starting at index `i`.
pub open spec fn occurs_at(s: Seq<char>, marker: Seq<char>, i: int) -> bool {
    0 <= i && i + marker.len() <= s.len() && s.subrange(i, i + marker.len()) == marker
}

/// The first index at or after `k` where `marker` occurs in `s`.
pub open spec fn first_occurrence_from(s: Seq<char>, marker: Seq<char>, k: int) -> Option<int>
    decreases s.len() + 1 - k,
{
    if k < 0 || k + marker.len() > s.len() {
        None
    } else if occurs_at(s, marker, k) {
        Some(k)
    } else {
        first_occurrence_from(s, marker, k + 1)
    }
}

/// The first index where `marker` occurs in `s`.
pub open spec fn first_occurrence(s: Seq<char>, marker: Seq<char>) -> Option<int> {
    first_occurrence_from(s, marker, 0)
}

/// What the search finds is an occurrence, and none occurs before it.
pub proof fn lemma_first_occurrence_from(s: Seq<char>, marker: Seq<char>, k: int)
    requires
        0 <= k,
    ensures
        first_occurrence_from(s, marker, k) matches Some(i) ==> k <= i && occurs_at(s, marker, i)
            && forall|j: int| k <= j < i ==> !occurs_at(s, marker, j),
        first_occurrence_from(s, marker, k) is None ==> forall|j: int|
            k <= j ==> !occurs_at(s, marker, j),
    decreases s.len() + 1 - k,
{
    if k + marker.len() <= s.len() && !occurs_at(s, marker, k) {
        lemma_first_occurrence_from(s, marker, k + 1);
    }
}

/// `s` with `snippet` inserted right before the first occurrence of `marker`,
/// or `s` itself where the marker does not occur.
pub open spec fn inserted_before(s: Seq<char>, marker: Seq<char>, snippet: Seq<char>) -> Seq<char> {
    match first_occurrence(s, marker) {
        Some(i) => s.take(i) + snippet + s.skip(i),
        None => s,
    }
}

/// The characters of `s`, one by one.
fn chars_of(s: &str) -> (r: Vec<char>)
    ensures
        r@ == s@,
{
    let mut r: Vec<char> = Vec::new();
    for c in it: s.chars()
        invariant
            r@ == it.seq().take(it.index() as int),
    {
        r.push(c);
    }
    r
}

/// Whether `marker` occurs in `text` at index `i`.
fn matches_at(text: &Vec<char>, marker: &Vec<char>, i: usize) -> (r: bool)
    requires
        i + marker.len() <= text.len(),
    ensures
        r == occurs_at(text@, marker@, i as int),
{
    let mut j: usize = 0;
    while j < marker.len()
        invariant
            j <= marker.len(),
            i + marker.len() <= text.len(),
            forall|k: int| 0 <= k < j ==> text@[i + k] == marker@[k],
        decreases marker.len() - j,
    {
        if text[i + j] != marker[j] {
            assert(text@.subrange(i as int, i + marker.len())[j as int] != marker@[j as int]);
            return false;
        }
        j = j + 1;
    }
    assert(text@.subrange(i as int, i + marker.len()) =~= marker@);
    true
}

/// The first index where `marker` occurs in `text`.
pub fn find_first(text: &Vec<char>, marker: &Vec<char>) -> (r: Option<usize>)
    requires
        marker.len() > 0,
    ensures
        r matches Some(i) ==> first_occurrence(text@, marker@) == Some(i as int),
        r is None ==> first_occurrence(text@, marker@) is None,
{
    if marker.len() > text.len() {
        return None;
    }
    let last = text.len() - marker.len();
    let mut i: usize = 0;
    while i <= last
        invariant
            last + marker.len() == text.len(),
            marker.len() > 0,
            i <= last + 1,
            first_occurrence(text@, marker@) == first_occurrence_from(text@, marker@, i as int),
        decreases last + 1 - i,
    {
        if matches_at(text, marker, i) {
            return Some(i);
        }
        i = i + 1;
    }
    None
}

/// `html` with `snippet` inserted right before the first `</head>`, or
/// `html` unchanged where it has none.
pub fn insert_before_head_close(html: &str, snippet: &str) -> (r: String)
    ensures
        r@ == inserted_before(html@, HEAD_CLOSE@, snippet@),
{
    let text = chars_of(html);
    let marker = chars_of(HEAD_CLOSE);
    proof {
        reveal_strlit("</head>");
        lemma_first_occurrence_from(html@, HEAD_CLOSE@, 0);
    }
    match find_first(&text, &marker) {
        Some(i) => {
            let mut r = String::from_str(html.substring_char(0, i));
            r.append(snippet);
            r.append(html.substring_char(i, text.len()));
            r
        },
        None => String::from_str(html),
    }
}

/// Where the analytics snippet points: the script's address and the site
/// identifier. Either may be absent.
pub struct AnalyticsConfig {
    pub url: Option<String>,
    pub site_id: Option<String>,
}

/// An optional string as optional characters.
pub open spec fn opt_view(o: Option<String>) -> Option<Seq<char>> {
    match o {
        Some(s) => Some(s@),
        None => None,
    }
}

impl View for AnalyticsConfig {
    type V = (Option<Seq<char>>, Option<Seq<char>>);

    open spec fn view(&self) -> (Option<Seq<char>>, Option<Seq<char>>) {
        (opt_view(self.url), opt_view(self.site_id))
    }
}

/// The deferred script element that loads the analytics script from `url`,
/// tagged with `site_id`.
pub open spec fn script_fragment(url: Seq<char>, site_id: Seq<char>) -> Seq<char> {
    "<script defer src=\""@ + url + "\" data-website-id=\""@ + site_id + "\"></script>"@
}

/// The analytics snippet: present only when both values are.
pub open spec fn analytics_fragment(config: (Option<Seq<char>>, Option<Seq<char>>)) -> Option<Seq<char>> {
    match (config.0, config.1) {
        (Some(url), Some(site_id)) => Some(script_fragment(url, site_id)),
        _ => None,
    }
}

/// The root document's text once the analytics snippet, if any, stands on a
/// line of its own before the first `</head>`.
pub open spec fn transformed(html: Seq<char>, config: (Option<Seq<char>>, Option<Seq<char>>)) -> Seq<char> {
    match analytics_fragment(config) {
        Some(script) => inserted_before(html, HEAD_CLOSE@, script + "\n"@),
        None => html,
    }
}

/// Builds the analytics snippet, when both values are configured.
pub fn analytics_script(config: &AnalyticsConfig) -> (r: Option<String>)
    ensures
        opt_view(r) == analytics_fragment(config@),
{
    match (&config.url, &config.site_id) {
        (Some(url), Some(site_id)) => {
            let mut r = String::from_str("<script defer src=\"");
            r.append(url.as_str());
            r.append("\" data-website-id=\"");
            r.append(site_id.as_str());
            r.append("\"></script>");
            Some(r)
        },
        _ => None,
    }
}

/// Places the analytics snippet, when configured, before the first `</head>`
/// of `html`; otherwise, or where there is no such marker, `html` is kept.
pub fn transform_root_document(html: &str, config: &AnalyticsConfig) -> (r: String)
    ensures
        r@ == transformed(html@, config@),
{
    match analytics_script(config) {
        Some(script) => {
            let mut snippet = script;
            snippet.append("\n");
            insert_before_head_close(html, snippet.as_str())
        },
        None => String::from_str(html),
    }
}

/// Why the root document cannot be built. Either one means a broken build
/// of the asset bundle.
#[derive(Debug, Clone, Copy, PartialEq, Eq, Structural)]
pub enum RootDocumentError {
    /// The store holds no root document.
    Missing,
    /// The root document's bytes are not UTF-8 text.
    InvalidText,
}

/// Relies on String::from_utf8: the bytes as text when they are valid UTF-8,
/// and an error otherwise.
#[verifier::external_body]
fn decode_text(bytes: Vec<u8>) -> (r: Option<String>)
    ensures
        r is Some <==> valid_utf8(bytes@),
        r matches Some(s) ==> s@ == decode_utf8(bytes@),
{
    String::from_utf8(bytes).ok()
}

/// The root document built from the store's contents and the analytics
/// configuration.
pub open spec fn root_document(
    assets: Map<Seq<char>, Seq<u8>>,
    config: (Option<Seq<char>>, Option<Seq<char>>),
) -> Result<Seq<char>, RootDocumentError> {
    if !assets.contains_key(root_document_name()) {
        Err(RootDocumentError::Missing)
    } else if !valid_utf8(assets[root_document_name()]) {
        Err(RootDocumentError::InvalidText)
    } else {
        Ok(transformed(decode_utf8(assets[root_document_name()]), config))
    }
}

/// With both analytics values set and a `</head>` in the document, the
/// snippet goes in once, on a line of its own, right before the first
/// `</head>`, and the rest of the document is kept around it.
pub proof fn lemma_snippet_before_head_close(html: Seq<char>, url: Seq<char>, site_id: Seq<char>)
    requires
        exists|i: int| occurs_at(html, HEAD_CLOSE@, i),
    ensures
        exists|i: int|
            {
                &&& occurs_at(html, HEAD_CLOSE@, i)
                &&& forall|j: int| 0 <= j < i ==> !occurs_at(html, HEAD_CLOSE@, j)
                &&& #[trigger] transformed(html, (Some(url), Some(site_id))) == html.take(i)
                    + script_fragment(url, site_id) + "\n"@ + html.skip(i)
            },
{
    lemma_first_occurrence_from(html, HEAD_CLOSE@, 0);
    let i = first_occurrence(html, HEAD_CLOSE@)->0;
    assert(html.take(i) + (script_fragment(url, site_id) + "\n"@) + html.skip(i) == html.take(i)
        + script_fragment(url, site_id) + "\n"@ + html.skip(i));
}

/// Without both analytics values the root document is the stored document's
/// text, exactly.
pub proof fn lemma_no_config_no_change(
    assets: Map<Seq<char>, Seq<u8>>,
    config: (Option<Seq<char>>, Option<Seq<char>>),
)
    requires
        config.0 is None || config.1 is None,
    ensures
        root_document(assets, config) == root_document(assets, (None, None)),
        assets.contains_key(root_document_name()) && valid_utf8(assets[root_document_name()])
            ==> root_document(assets, config) == Ok::<Seq<char>, RootDocumentError>(
            decode_utf8(assets[root_document_name()]),
        ),
{
}

/// A document without `</head>` is left as it is, whatever the analytics
/// configuration.
pub proof fn lemma_no_marker_no_change(html: Seq<char>, config: (Option<Seq<char>>, Option<Seq<char>>))
    requires
        forall|i: int| !occurs_at(html, HEAD_CLOSE@, i),
    ensures
        transformed(html, config) == html,
{
    if first_occurrence(html, HEAD_CLOSE@) is Some {
        lemma_first_occurrence_from(html, HEAD_CLOSE@, 0);
    }
}

/// A result carrying a string, with the string seen as characters.
pub open spec fn result_view(r: Result<String, RootDocumentError>) -> Result<Seq<char>, RootDocumentError> {
    match r {
        Ok(s) => Ok(s@),
        Err(e) => Err(e),
    }
}

/// Reads the root document from the store, decodes it and places the
/// analytics snippet in it.
pub fn build_root_document(store: &AssetStore, config: &AnalyticsConfig) -> (r: Result<String, RootDocumentError>)
    ensures
        result_view(r) == root_document(store@, config@),
{
    let name = String::from_str(ROOT_DOCUMENT_NAME);
    match store.get(&name) {
        None => Err(RootDocumentError::Missing),
        Some(bytes) => match decode_text(copy_bytes(bytes)) {
            None => Err(RootDocumentError::InvalidText),
            Some(html) => Ok(transform_root_document(html.as_str(), config)),
        },
    }
}

} // verus!
