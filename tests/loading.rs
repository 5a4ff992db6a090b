use simplex::media::{media_type, str_eq};
use simplex::paths::{extension, key_for, last_index};
use simplex::{load, AssetTable, SourceFile};

fn file(rel: &str, bytes: &[u8]) -> SourceFile {
    SourceFile { rel_path: rel.to_string(), contents: bytes.to_vec() }
}

fn found(table: &AssetTable, path: &str) -> Option<(String, Vec<u8>)> {
    table.lookup(path).map(|a| (a.media_type.clone(), a.contents.clone()))
}

#[test]
fn test_load_files() {
    let files = load(vec![
        file("index.html", b"<h1>Hi</h1>"),
        file("css/style.css", b"body{}"),
    ]);

    assert!(files.lookup("/index.html").is_some());
    assert!(files.lookup("/css/style.css").is_some());
    assert_eq!(files.lookup("/index.html").unwrap().media_type, "text/html");
    assert_eq!(files.lookup("/css/style.css").unwrap().media_type, "text/css");
}

#[test]
fn scenario_index_and_stylesheet() {
    let table = load(vec![
        file("index.html", b"<h1>Hi</h1>"),
        file("css/style.css", b"body{}"),
    ]);
    assert_eq!(found(&table, "/"), Some(("text/html".to_string(), b"<h1>Hi</h1>".to_vec())));
    assert_eq!(found(&table, "/css/style.css"), Some(("text/css".to_string(), b"body{}".to_vec())));
    assert_eq!(found(&table, "/missing.txt"), None);
    assert_eq!(table.len(), 2);
}

#[test]
fn scenario_empty_root() {
    let table = load(Vec::new());
    assert!(table.is_empty());
    assert_eq!(table.len(), 0);
    assert!(table.lookup("/").is_none());
    assert!(table.lookup("/index.html").is_none());
    assert!(table.lookup("/anything").is_none());
}

#[test]
fn scenario_unknown_extension() {
    let bytes: Vec<u8> = vec![0, 1, 2, 255, 254];
    let table = load(vec![file("logo.xyz", &bytes)]);
    assert_eq!(
        found(&table, "/logo.xyz"),
        Some(("application/octet-stream".to_string(), bytes.clone()))
    );
}

#[test]
fn every_file_is_loaded_with_exact_bytes() {
    let table = load(vec![
        file("a.txt", b"alpha"),
        file("deep/er/b.js", b"let b;"),
        file("c", b""),
    ]);
    assert_eq!(table.len(), 3);
    assert_eq!(found(&table, "/a.txt"), Some(("application/octet-stream".to_string(), b"alpha".to_vec())));
    assert_eq!(
        found(&table, "/deep/er/b.js"),
        Some(("application/javascript".to_string(), b"let b;".to_vec()))
    );
    assert_eq!(found(&table, "/c"), Some(("application/octet-stream".to_string(), Vec::new())));
}

#[test]
fn backslash_separators_are_normalised() {
    assert_eq!(key_for("css\\style.css"), "/css/style.css");
    assert_eq!(key_for("a\\b\\c.png"), "/a/b/c.png");
    assert_eq!(key_for("index.html"), "/index.html");
    assert_eq!(key_for(""), "/");
    let table = load(vec![file("img\\logo.png", b"png")]);
    assert_eq!(found(&table, "/img/logo.png"), Some(("image/png".to_string(), b"png".to_vec())));
    assert!(table.lookup("/img\\logo.png").is_none());
}

#[test]
fn later_file_with_same_key_wins() {
    let table = load(vec![file("a/b.css", b"first"), file("a\\b.css", b"second")]);
    assert_eq!(table.len(), 1);
    assert_eq!(found(&table, "/a/b.css"), Some(("text/css".to_string(), b"second".to_vec())));
}

#[test]
fn root_is_index_when_present_and_absent() {
    let with_index = load(vec![file("index.html", b"home")]);
    assert_eq!(found(&with_index, "/"), found(&with_index, "/index.html"));
    assert!(with_index.lookup("/").is_some());
    let without_index = load(vec![file("other.html", b"x")]);
    assert_eq!(found(&without_index, "/"), None);
    assert_eq!(found(&without_index, "/index.html"), None);
}

#[test]
fn lookup_is_exact() {
    let table = load(vec![file("index.html", b"home"), file("docs/guide.pdf", b"%PDF")]);
    assert!(table.lookup("/INDEX.html").is_none());
    assert!(table.lookup("/index.htm").is_none());
    assert!(table.lookup("index.html").is_none());
    assert!(table.lookup("/index.html/").is_none());
    assert!(table.lookup("/docs").is_none());
    assert!(table.lookup("/docs/").is_none());
    assert!(table.lookup("").is_none());
    assert_eq!(found(&table, "/docs/guide.pdf"), Some(("application/pdf".to_string(), b"%PDF".to_vec())));
}

#[test]
fn repeated_lookups_agree() {
    let table = load(vec![file("index.html", b"home"), file("app.js", b"run()")]);
    let first = found(&table, "/app.js");
    for _ in 0..100 {
        assert_eq!(found(&table, "/app.js"), first);
        assert_eq!(found(&table, "/"), found(&table, "/index.html"));
    }
}

#[test]
fn media_types_of_known_extensions() {
    let cases = [
        ("html", "text/html"),
        ("css", "text/css"),
        ("js", "application/javascript"),
        ("png", "image/png"),
        ("jpg", "image/jpeg"),
        ("jpeg", "image/jpeg"),
        ("gif", "image/gif"),
        ("svg", "image/svg+xml"),
        ("woff", "font/woff"),
        ("woff2", "font/woff2"),
        ("ttf", "font/ttf"),
        ("otf", "font/otf"),
        ("mp3", "audio/mpeg"),
        ("wav", "audio/wav"),
        ("ogg", "audio/ogg"),
        ("mp4", "video/mp4"),
        ("webm", "video/webm"),
        ("json", "application/json"),
        ("pdf", "application/pdf"),
        ("ico", "image/x-icon"),
    ];
    for (ext, expected) in cases {
        assert_eq!(media_type(Some(ext)), expected);
        let table = load(vec![file(&format!("f.{}", ext), b"x")]);
        assert_eq!(table.lookup(&format!("/f.{}", ext)).unwrap().media_type, expected);
    }
}

#[test]
fn media_type_is_case_sensitive_and_defaults() {
    assert_eq!(media_type(Some("HTML")), "application/octet-stream");
    assert_eq!(media_type(Some("Css")), "application/octet-stream");
    assert_eq!(media_type(Some("txt")), "application/octet-stream");
    assert_eq!(media_type(Some("")), "application/octet-stream");
    assert_eq!(media_type(None), "application/octet-stream");
    let table = load(vec![file("README", b"r"), file(".html", b"h"), file("page.HTML", b"p")]);
    assert_eq!(table.lookup("/README").unwrap().media_type, "application/octet-stream");
    assert_eq!(table.lookup("/.html").unwrap().media_type, "application/octet-stream");
    assert_eq!(table.lookup("/page.HTML").unwrap().media_type, "application/octet-stream");
}

#[test]
fn extension_of_last_segment() {
    assert_eq!(extension("/index.html"), Some("html"));
    assert_eq!(extension("/a.tar.gz"), Some("gz"));
    assert_eq!(extension("/dir.d/file"), None);
    assert_eq!(extension("/.profile"), None);
    assert_eq!(extension("/x/.a.css"), Some("css"));
    assert_eq!(extension("/name."), Some(""));
    assert_eq!(extension("/"), None);
    assert_eq!(extension("/font.woff2"), Some("woff2"));
}

#[test]
fn last_index_and_equality() {
    assert_eq!(last_index("a/b/c", '/'), Some(3));
    assert_eq!(last_index("abc", '/'), None);
    assert_eq!(last_index("", '.'), None);
    assert!(str_eq("html", "html"));
    assert!(!str_eq("html", "htm"));
    assert!(!str_eq("html", "HTML"));
    assert!(str_eq("", ""));
}

#[test]
fn insert_file_adds_one_key() {
    let mut table = AssetTable::new();
    table.insert_file("index.html", b"one".to_vec());
    table.insert_file("sub\\page.json", b"{}".to_vec());
    assert_eq!(table.len(), 2);
    assert_eq!(found(&table, "/sub/page.json"), Some(("application/json".to_string(), b"{}".to_vec())));
    table.insert_file("index.html", b"two".to_vec());
    assert_eq!(table.len(), 2);
    assert_eq!(found(&table, "/"), Some(("text/html".to_string(), b"two".to_vec())));
}

#[test]
fn non_ascii_paths() {
    let table = load(vec![file("bilder/straße.png", b"p"), file("日本\\語.svg", b"s")]);
    assert_eq!(found(&table, "/bilder/straße.png"), Some(("image/png".to_string(), b"p".to_vec())));
    assert_eq!(found(&table, "/日本/語.svg"), Some(("image/svg+xml".to_string(), b"s".to_vec())));
}

#[test]
fn root_path_resolves_to_index() {
    assert_eq!(simplex::resolve_path("/"), "/index.html");
    assert_eq!(simplex::resolve_path("/index.html"), "/index.html");
    assert_eq!(simplex::resolve_path("/a/"), "/a/");
    assert_eq!(simplex::resolve_path(""), "");
}
