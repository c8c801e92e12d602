use frontend::resolve::{contains_char, normalize_path, resolve, Outcome};
use frontend::store::AssetStore;

fn sample_store() -> AssetStore {
    let mut store = AssetStore::new();
    store.insert(String::from("index.html"), b"<html><head></head><body></body></html>".to_vec());
    store.insert(String::from("app.js"), b"console.log(1);".to_vec());
    store.insert(String::from("style.css"), b"body{}".to_vec());
    store.insert(String::from("data.bin"), vec![0u8, 1, 2, 255]);
    store.insert(String::from("assets/logo.png"), vec![137u8, 80, 78, 71]);
    store
}

fn asset(outcome: Outcome) -> (Vec<u8>, String) {
    match outcome {
        Outcome::ServeAsset { bytes, content_type } => (bytes, content_type),
        Outcome::ServeRootDocument => panic!("root document served"),
        Outcome::NotFound => panic!("not found"),
    }
}

#[test]
fn javascript_asset_is_served_with_script_type() {
    let (bytes, content_type) = asset(resolve(&sample_store(), "/app.js"));
    assert_eq!(bytes, b"console.log(1);".to_vec());
    assert_eq!(content_type, "text/javascript");
}

#[test]
fn css_asset_is_served_with_css_type() {
    let (bytes, content_type) = asset(resolve(&sample_store(), "style.css"));
    assert_eq!(bytes, b"body{}".to_vec());
    assert_eq!(content_type, "text/css");
}

#[test]
fn unknown_extension_is_octet_stream() {
    let (bytes, content_type) = asset(resolve(&sample_store(), "/data.bin"));
    assert_eq!(bytes, vec![0u8, 1, 2, 255]);
    assert_eq!(content_type, "application/octet-stream");
}

#[test]
fn nested_asset_is_served() {
    let (bytes, content_type) = asset(resolve(&sample_store(), "/assets/logo.png"));
    assert_eq!(bytes, vec![137u8, 80, 78, 71]);
    assert_eq!(content_type, "image/png");
}

#[test]
fn missing_file_is_not_found() {
    assert!(matches!(resolve(&sample_store(), "/missing.png"), Outcome::NotFound));
    assert!(matches!(resolve(&sample_store(), "missing.png"), Outcome::NotFound));
}

#[test]
fn client_route_serves_root_document() {
    assert!(matches!(resolve(&sample_store(), "/dashboard/settings"), Outcome::ServeRootDocument));
    assert!(matches!(resolve(&sample_store(), "/about"), Outcome::ServeRootDocument));
}

#[test]
fn empty_path_and_root_name_serve_root_document() {
    let store = sample_store();
    assert!(matches!(resolve(&store, ""), Outcome::ServeRootDocument));
    assert!(matches!(resolve(&store, "/"), Outcome::ServeRootDocument));
    assert!(matches!(resolve(&store, "index.html"), Outcome::ServeRootDocument));
    assert!(matches!(resolve(&store, "/index.html"), Outcome::ServeRootDocument));
}

#[test]
fn root_name_serves_root_document_even_from_empty_store() {
    let store = AssetStore::new();
    assert!(matches!(resolve(&store, "/index.html"), Outcome::ServeRootDocument));
    assert!(matches!(resolve(&store, "/app.js"), Outcome::NotFound));
}

#[test]
fn only_one_leading_separator_is_stripped() {
    assert_eq!(normalize_path("//app.js"), "/app.js");
    assert_eq!(normalize_path("/app.js"), "app.js");
    assert_eq!(normalize_path("app.js"), "app.js");
    assert_eq!(normalize_path(""), "");
    assert!(matches!(resolve(&sample_store(), "//app.js"), Outcome::NotFound));
    assert!(matches!(resolve(&sample_store(), "//"), Outcome::ServeRootDocument));
}

#[test]
fn dotted_route_is_treated_as_file() {
    assert!(matches!(resolve(&sample_store(), "/release/v1.2"), Outcome::NotFound));
}

#[test]
fn contains_char_finds_dots() {
    assert!(contains_char("a.b", '.'));
    assert!(!contains_char("abc", '.'));
    assert!(!contains_char("", '.'));
}

#[test]
fn store_insert_replaces_and_get_finds() {
    let mut store = AssetStore::new();
    let key = String::from("a.txt");
    assert_eq!(store.get(&key), None);
    store.insert(String::from("a.txt"), vec![1u8]);
    store.insert(String::from("b.txt"), vec![2u8]);
    store.insert(String::from("a.txt"), vec![3u8]);
    assert_eq!(store.get(&key), Some(&vec![3u8]));
    assert_eq!(store.get(&String::from("b.txt")), Some(&vec![2u8]));
    assert_eq!(store.get(&String::from("c.txt")), None);
}
