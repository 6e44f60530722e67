use sitegen::content::{ContentReference, FontBook, SiteConfiguration};
use sitegen::dates::Timestamp;
use sitegen::frontmatter::{parse_frontmatter, Metadata};
use sitegen::passes::{plan_first_pass, plan_second_pass, FirstPassAction};
use sitegen::path::SitePath;
use sitegen::sitemap::Sitemap;

fn path(parts: &[&str]) -> SitePath {
    let mut p = SitePath::empty();
    for part in parts {
        assert!(p.push(part));
    }
    p
}

fn config() -> SiteConfiguration {
    SiteConfiguration::new(
        path(&["src"]),
        path(&["out"]),
        "https://example.org/".to_string(),
        path(&["d2"]),
        FontBook {
            regular: path(&["r.ttf"]),
            italic: path(&["i.ttf"]),
            bold: path(&["b.ttf"]),
            semibold: path(&["s.ttf"]),
            monospace: path(&["m.ttf"]),
        },
    )
}

fn reference(c: &SiteConfiguration, parts: &[&str]) -> ContentReference {
    let mut full = vec!["src"];
    full.extend_from_slice(parts);
    ContentReference::new(c, &path(&full)).unwrap()
}

fn article(c: &SiteConfiguration, name: &str, seconds: i64) -> (ContentReference, String, Metadata) {
    let mut r = reference(c, &["blog", name]);
    assert!(plan_second_pass(&mut r));
    (
        r,
        format!("title {name}"),
        Metadata::Article { date: Timestamp { seconds }, modified: None, category: "misc".to_string() },
    )
}

fn page(c: &SiteConfiguration, name: &str) -> (ContentReference, String, Metadata) {
    let mut r = reference(c, &[name]);
    assert!(plan_second_pass(&mut r));
    (r, format!("title {name}"), Metadata::Page { description: "d".to_string() })
}

const JAN: i64 = 1704085200;
const FEB: i64 = 1706763600;
const MAR: i64 = 1709269200;

#[test]
fn article_entries_newest_first() {
    let c = config();
    let entries = vec![article(&c, "jan.md", JAN), page(&c, "about.md"), article(&c, "mar.md", MAR), article(&c, "feb.md", FEB)];
    let sitemap = Sitemap::with_buildstamp(entries, Timestamp { seconds: 5 });
    let listed = sitemap.get_article_entries(&c);
    let dates: Vec<i64> = listed.iter().map(|a| a.date.seconds).collect();
    assert_eq!(dates, vec![MAR, FEB, JAN]);
    assert_eq!(listed[0].title, "title mar.md");
    assert_eq!(listed[0].relative_url, "blog/mar.html");
    assert_eq!(listed[0].full_url, "https://example.org/blog/mar.html");
    assert_eq!(listed[0].listing_url, "/images/listing_mar.jpeg");
    assert_eq!(listed[0].category, "misc");
}

#[test]
fn equal_dates_keep_entry_order() {
    let c = config();
    let entries = vec![article(&c, "a.md", JAN), article(&c, "b.md", FEB), article(&c, "c.md", JAN)];
    let sitemap = Sitemap::with_buildstamp(entries, Timestamp { seconds: 5 });
    let titles: Vec<String> = sitemap.get_article_entries(&c).into_iter().map(|a| a.title).collect();
    assert_eq!(titles, vec!["title b.md", "title a.md", "title c.md"]);
}

#[test]
fn map_entries_use_buildstamp_for_pages() {
    let c = config();
    let mut modified = article(&c, "m.md", JAN);
    modified.2 = Metadata::Article {
        date: Timestamp { seconds: JAN },
        modified: Some(Timestamp { seconds: FEB }),
        category: "x".to_string(),
    };
    let entries = vec![page(&c, "about.md"), article(&c, "a.md", MAR), page(&c, "contact.md"), modified];
    let sitemap = Sitemap::with_buildstamp(entries, Timestamp { seconds: 42 });
    let map = sitemap.get_map_entries(&c);
    assert_eq!(map.len(), 4);
    assert_eq!(map[0].last_modified, Timestamp { seconds: 42 });
    assert_eq!(map[2].last_modified, Timestamp { seconds: 42 });
    assert_eq!(map[0].change_frequency, "yearly");
    assert_eq!(map[0].location, "https://example.org/about.html");
    assert_eq!(map[1].last_modified, Timestamp { seconds: MAR });
    assert_eq!(map[1].change_frequency, "monthly");
    assert_eq!(map[3].last_modified, Timestamp { seconds: FEB });
    assert_eq!(sitemap.get_buildstamp(), Timestamp { seconds: 42 });
}

#[test]
fn current_buildstamp_is_shared_by_pages() {
    let c = config();
    let sitemap = Sitemap::new(vec![page(&c, "a.md"), page(&c, "b.md")]);
    let map = sitemap.get_map_entries(&c);
    assert_eq!(map[0].last_modified, map[1].last_modified);
    assert_eq!(map[0].last_modified, sitemap.get_buildstamp());
    assert!(sitemap.get_buildstamp().seconds > JAN);
}

#[test]
fn passes_over_a_small_tree() {
    let c = config();
    let mut md = reference(&c, &["blog", "post.md"]);
    let mut d2 = reference(&c, &["blog", "flow.d2"]);
    let mut png = reference(&c, &["blog", "photo.png"]);
    assert_eq!(plan_first_pass(&mut md), FirstPassAction::Defer);
    assert_eq!(plan_first_pass(&mut d2), FirstPassAction::CompileDiagram);
    assert_eq!(plan_first_pass(&mut png), FirstPassAction::Copy);
    assert_eq!(md.get_relative_url(), "blog/post.md");
    assert_eq!(d2.get_relative_url(), "blog/flow.svg");
    assert_eq!(png.get_relative_url(), "blog/photo.png");
    assert_eq!(d2.source_file(&c).to_text(), "src/blog/flow.d2");

    let mut rendered = Vec::new();
    for mut r in [md, d2, png] {
        if plan_second_pass(&mut r) {
            let doc = parse_frontmatter("title: Post\ndate: 2024-01-01\ncategory: misc\n\nHello").ok().unwrap();
            rendered.push((r, doc.title, doc.metadata));
        }
    }
    assert_eq!(rendered.len(), 1);
    assert_eq!(rendered[0].0.get_relative_url(), "blog/post.html");
    assert_eq!(rendered[0].0.output_file(&c).to_text(), "out/blog/post.html");
    let sitemap = Sitemap::new(rendered);
    let articles = sitemap.get_article_entries(&c);
    assert_eq!(articles.len(), 1);
    assert_eq!(articles[0].title, "Post");
    assert_eq!(articles[0].date, Timestamp { seconds: JAN });
}

#[test]
fn file_without_extension_is_copied() {
    let c = config();
    let mut r = reference(&c, &["LICENSE"]);
    assert_eq!(plan_first_pass(&mut r), FirstPassAction::Copy);
    assert!(!plan_second_pass(&mut r));
    assert_eq!(r.get_relative_url(), "LICENSE");
}
