use dirserve::resolve::{classify, resolve_segments, FsProbe, ResolvedTarget};
use dirserve::response::{file_response, not_found_response};
use dirserve::router::{getvalue_from_query, query_value, static_response};
use dirserve::template::AssetBundle;

fn probe(is_file: bool, is_dir: bool, exists: Option<bool>) -> FsProbe {
    FsProbe { is_file, is_dir, exists }
}

#[test]
fn resolve_plain_path() {
    let segs = resolve_segments("/a/b.txt").unwrap();
    assert_eq!(segs, vec!["a", "b.txt"]);
}

#[test]
fn resolve_drops_empty_and_dot() {
    let segs = resolve_segments("//a/./b/").unwrap();
    assert_eq!(segs, vec!["a", "b"]);
}

#[test]
fn resolve_honors_inner_traversal() {
    let segs = resolve_segments("/a/../b").unwrap();
    assert_eq!(segs, vec!["b"]);
}

#[test]
fn traversal_above_root_is_rejected() {
    assert!(resolve_segments("/../etc/passwd").is_none());
    assert!(resolve_segments("/a/../../x").is_none());
    assert!(resolve_segments("/..").is_none());
}

#[test]
fn classify_prefers_file() {
    let t = classify("/x", "./x".to_string(), probe(true, true, Some(true)));
    assert!(matches!(t, ResolvedTarget::File(p) if p == "./x"));
}

#[test]
fn classify_directory_before_static() {
    let t = classify(
        "/static_contents/x",
        "./static_contents/x".to_string(),
        probe(false, true, Some(true)),
    );
    assert!(matches!(t, ResolvedTarget::Directory(_)));
}

#[test]
fn classify_static_fallback_strips_prefix() {
    let t = classify(
        "/static_contents/style.css",
        "./static_contents/style.css".to_string(),
        probe(false, false, Some(false)),
    );
    assert!(matches!(t, ResolvedTarget::StaticAsset(p) if p == "/style.css"));
}

#[test]
fn classify_missing_and_invalid() {
    let t = classify("/nope", "./nope".to_string(), probe(false, false, Some(false)));
    assert!(matches!(t, ResolvedTarget::Missing));
    let t = classify("/odd", "./odd".to_string(), probe(false, false, None));
    assert!(matches!(t, ResolvedTarget::Invalid));
    let t = classify("/odd", "./odd".to_string(), probe(false, false, Some(true)));
    assert!(matches!(t, ResolvedTarget::Invalid));
}

#[test]
fn not_found_is_plain_text_404_with_body() {
    let r = not_found_response();
    assert_eq!(r.status, 404);
    assert!(!r.body.is_empty());
    assert_eq!(r.body, b"page not found".to_vec());
    assert_eq!(r.content_type.as_deref(), Some("text/plain; charset=utf-8"));
}

#[test]
fn file_response_is_exact_bytes() {
    let r = file_response(vec![1, 2, 3]);
    assert_eq!(r.status, 200);
    assert_eq!(r.body, vec![1, 2, 3]);
    assert_eq!(r.content_type, None);
}

#[test]
fn query_parsing_matches_query_grammar() {
    assert_eq!(query_value("foo=bar&baz=qux&", "foo").as_deref(), Some("bar"));
    assert_eq!(query_value("foo=bar&baz=qux&", "baz").as_deref(), Some("qux"));
    let q = "a=b&b=c&something_else=another-thing&notright#&blank=&ignoreme!";
    assert_eq!(query_value(q, "something_else").as_deref(), Some("another-thing"));
    assert_eq!(query_value(q, "blank").as_deref(), Some(""));
    assert_eq!(query_value(q, "notright#"), None);
    assert_eq!(query_value(q, "ignoreme!"), None);
    assert_eq!(query_value("arbitrary string", "arbitrary"), None);
    assert_eq!(query_value("a=b=c", "a").as_deref(), Some("b"));
}

#[test]
fn query_lookup_finds_first() {
    assert_eq!(query_value("type=json&type=html", "type").as_deref(), Some("json"));
    let pairs = vec![
        ("type".to_string(), "json".to_string()),
        ("type".to_string(), "html".to_string()),
    ];
    assert_eq!(getvalue_from_query(&pairs, "type").map(|s| s.as_str()), Some("json"));
    assert_eq!(getvalue_from_query(&pairs, "none"), None);
}

#[test]
fn static_asset_served_with_cache_header() {
    let bundle = AssetBundle {
        files: vec![("static/style.css".to_string(), b"body{}".to_vec())],
    };
    let r = static_response(&bundle, "/style.css");
    assert_eq!(r.status, 200);
    assert_eq!(r.body, b"body{}".to_vec());
    assert_eq!(r.cache_control.as_deref(), Some("private, max-age=360000"));
}

#[test]
fn static_asset_absent_is_404() {
    let bundle = AssetBundle { files: vec![] };
    let r = static_response(&bundle, "/style.css");
    assert_eq!(r.status, 404);
    assert!(!r.body.is_empty());
}
