use sitegen::content::{ContentReference, FontBook, PathMappingError, SiteConfiguration};
use sitegen::passes::mirrored_directory;
use sitegen::path::SitePath;

fn path(parts: &[&str]) -> SitePath {
    let mut p = SitePath::empty();
    for part in parts {
        assert!(p.push(part));
    }
    p
}

fn config() -> SiteConfiguration {
    SiteConfiguration::new(
        path(&["home", "site", "content"]),
        path(&["home", "site", "dist"]),
        "https://example.org/".to_string(),
        path(&["usr", "bin", "d2"]),
        FontBook {
            regular: path(&["fonts", "regular.ttf"]),
            italic: path(&["fonts", "italic.ttf"]),
            bold: path(&["fonts", "bold.ttf"]),
            semibold: path(&["fonts", "semibold.ttf"]),
            monospace: path(&["fonts", "mono.ttf"]),
        },
    )
}

#[test]
fn push_rejects_invalid_components() {
    let mut p = SitePath::empty();
    assert!(!p.push(""));
    assert!(!p.push("a/b"));
    assert!(!p.push("."));
    assert!(!p.push(".."));
    assert!(p.push(".hidden"));
    assert_eq!(p.len(), 1);
    assert_eq!(p.to_text(), ".hidden");
}

#[test]
fn new_strips_content_root() {
    let c = config();
    let r = ContentReference::new(&c, &path(&["home", "site", "content", "blog", "post.md"])).unwrap();
    assert_eq!(r.get_relative_url(), "blog/post.md");
    assert_eq!(r.output_file(&c).to_text(), "home/site/dist/blog/post.md");
    assert_eq!(r.source_file(&c).to_text(), "home/site/content/blog/post.md");
}

#[test]
fn new_rejects_paths_outside_root() {
    let c = config();
    assert_eq!(
        ContentReference::new(&c, &path(&["home", "site", "other", "post.md"])).err(),
        Some(PathMappingError)
    );
    assert_eq!(
        ContentReference::new(&c, &path(&["home", "site", "contents", "post.md"])).err(),
        Some(PathMappingError)
    );
    assert_eq!(ContentReference::new(&c, &path(&["home"])).err(), Some(PathMappingError));
    assert_eq!(
        ContentReference::new(&c, &path(&["home", "site", "content"])).err(),
        Some(PathMappingError)
    );
}

#[test]
fn set_output_extension_keeps_source() {
    let c = config();
    let mut r = ContentReference::new(&c, &path(&["home", "site", "content", "notes", "flow.d2"])).unwrap();
    r.set_output_extension("svg");
    assert_eq!(r.get_relative_url(), "notes/flow.svg");
    assert_eq!(r.source_file(&c).to_text(), "home/site/content/notes/flow.d2");
    assert_eq!(r.get_content_extension(), Some("d2".to_string()));
    assert_eq!(r.get_slug(), "flow");
}

#[test]
fn set_output_extension_replaces_last_extension_only() {
    let c = config();
    let mut r = ContentReference::new(&c, &path(&["home", "site", "content", "a.tar.gz"])).unwrap();
    r.set_output_extension("html");
    assert_eq!(r.get_relative_url(), "a.tar.html");
    let mut h = ContentReference::new(&c, &path(&["home", "site", "content", ".profile"])).unwrap();
    assert_eq!(h.get_content_extension(), None);
    h.set_output_extension("svg");
    assert_eq!(h.get_relative_url(), ".profile.svg");
    assert_eq!(h.get_slug(), ".profile");
}

#[test]
fn urls_and_relative_paths() {
    let c = config();
    let mut r = ContentReference::new(&c, &path(&["home", "site", "content", "blog", "hello.md"])).unwrap();
    r.set_output_extension("html");
    assert_eq!(r.get_full_url(&c), "https://example.org/blog/hello.html");
    assert_eq!(c.resolve_relative_url("images/x.jpeg"), "https://example.org/images/x.jpeg");
    let p = r.resolve_relative_path(&c, &path(&["images", "listing_hello.jpeg"]));
    assert_eq!(p.to_text(), "home/site/dist/blog/images/listing_hello.jpeg");
    assert_eq!(c.get_site_url(), "https://example.org/");
    assert_eq!(c.get_content_root().to_text(), "home/site/content");
    assert_eq!(c.get_output_root().to_text(), "home/site/dist");
    assert_eq!(c.get_d2_executable().to_text(), "usr/bin/d2");
    assert_eq!(c.get_fontbook().bold.to_text(), "fonts/bold.ttf");
}

#[test]
fn mirrored_directories() {
    let c = config();
    assert_eq!(mirrored_directory(&c, &path(&["home", "site", "content"])).unwrap().to_text(), "home/site/dist");
    assert_eq!(
        mirrored_directory(&c, &path(&["home", "site", "content", "blog"])).unwrap().to_text(),
        "home/site/dist/blog"
    );
    assert!(mirrored_directory(&c, &path(&["tmp"])).is_err());
}
