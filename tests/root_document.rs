use frontend::cache::RootDocumentCache;
use frontend::document::{
    analytics_script, build_root_document, find_first, insert_before_head_close,
    transform_root_document, AnalyticsConfig, RootDocumentError,
};
use frontend::store::AssetStore;

const DOC: &str = "<html><head><title>App</title></head><body></body></html>";

fn config(url: Option<&str>, site_id: Option<&str>) -> AnalyticsConfig {
    AnalyticsConfig { url: url.map(String::from), site_id: site_id.map(String::from) }
}

fn store_with(doc: &[u8]) -> AssetStore {
    let mut store = AssetStore::new();
    store.insert(String::from("index.html"), doc.to_vec());
    store
}

#[test]
fn analytics_script_needs_both_values() {
    let both = analytics_script(&config(Some("https://a.example/s.js"), Some("abc-123")));
    assert_eq!(
        both,
        Some(String::from(
            r#"<script defer src="https://a.example/s.js" data-website-id="abc-123"></script>"#
        ))
    );
    assert_eq!(analytics_script(&config(None, Some("abc-123"))), None);
    assert_eq!(analytics_script(&config(Some("https://a.example/s.js"), None)), None);
    assert_eq!(analytics_script(&config(None, None)), None);
}

#[test]
fn snippet_is_inserted_before_head_close() {
    let out = transform_root_document(DOC, &config(Some("https://a.example/s.js"), Some("abc-123")));
    assert_eq!(
        out,
        "<html><head><title>App</title><script defer src=\"https://a.example/s.js\" data-website-id=\"abc-123\"></script>\n</head><body></body></html>"
    );
    assert_eq!(out.matches("<script").count(), 1);
}

#[test]
fn missing_analytics_value_leaves_document_unchanged() {
    assert_eq!(transform_root_document(DOC, &config(None, Some("abc-123"))), DOC);
    assert_eq!(transform_root_document(DOC, &config(Some("https://a.example/s.js"), None)), DOC);
    assert_eq!(transform_root_document(DOC, &config(None, None)), DOC);
}

#[test]
fn document_without_head_close_is_unchanged() {
    let doc = "<html><body>no head</body></html>";
    assert_eq!(transform_root_document(doc, &config(Some("u"), Some("i"))), doc);
    assert_eq!(transform_root_document("", &config(Some("u"), Some("i"))), "");
}

#[test]
fn only_first_head_close_gets_the_snippet() {
    let out = insert_before_head_close("a</head>b</head>", "X");
    assert_eq!(out, "aX</head>b</head>");
}

#[test]
fn insertion_keeps_non_ascii_text() {
    let out = insert_before_head_close("<head>é✓</head>ü", "S");
    assert_eq!(out, "<head>é✓S</head>ü");
}

#[test]
fn find_first_reports_first_index() {
    let text: Vec<char> = "xx</head></head>".chars().collect();
    let marker: Vec<char> = "</head>".chars().collect();
    assert_eq!(find_first(&text, &marker), Some(2));
    let short: Vec<char> = "</hea".chars().collect();
    assert_eq!(find_first(&short, &marker), None);
}

#[test]
fn build_reports_missing_root_document() {
    let store = AssetStore::new();
    assert_eq!(build_root_document(&store, &config(None, None)), Err(RootDocumentError::Missing));
}

#[test]
fn build_reports_invalid_text() {
    let store = store_with(&[0x3c, 0xff, 0xfe]);
    assert_eq!(build_root_document(&store, &config(None, None)), Err(RootDocumentError::InvalidText));
}

#[test]
fn build_decodes_and_transforms() {
    let store = store_with("<head>é</head>".as_bytes());
    assert_eq!(build_root_document(&store, &config(None, None)), Ok(String::from("<head>é</head>")));
    assert_eq!(
        build_root_document(&store, &config(Some("u"), Some("i"))),
        Ok(String::from("<head>é<script defer src=\"u\" data-website-id=\"i\"></script>\n</head>"))
    );
}

#[test]
fn cache_builds_once_and_keeps_the_result() {
    let first_store = store_with(DOC.as_bytes());
    let mut cache = RootDocumentCache::new();
    assert!(!cache.is_initialized());
    let with = config(Some("u"), Some("i"));
    let first = cache.get_or_init(&first_store, &with).unwrap();
    assert!(cache.is_initialized());
    let other_store = store_with(b"<p>other</p>");
    for _ in 0..5 {
        assert_eq!(cache.get_or_init(&other_store, &config(None, None)), Ok(first.clone()));
    }
    assert!(first.contains("data-website-id=\"i\""));
}

#[test]
fn cache_stays_empty_after_a_failed_build() {
    let mut cache = RootDocumentCache::new();
    assert_eq!(cache.get_or_init(&AssetStore::new(), &config(None, None)), Err(RootDocumentError::Missing));
    assert!(!cache.is_initialized());
    let store = store_with(DOC.as_bytes());
    assert_eq!(cache.get_or_init(&store, &config(None, None)), Ok(String::from(DOC)));
    assert!(cache.is_initialized());
}
