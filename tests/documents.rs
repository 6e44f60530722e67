use sitegen::dates::Timestamp;
use sitegen::diagrams::{classify_diagnostic, classify_diagnostics, d2_input, font_declaration, patch_css, LogLevel};
use sitegen::frontmatter::{parse_frontmatter, FrontmatterError, Metadata};

const JAN_FIRST_2024_EASTERN: i64 = 1704085200;

#[test]
fn article_frontmatter() {
    let f = parse_frontmatter("title: X\ndate: 2024-01-01\ncategory: misc\n\nBody").ok().unwrap();
    assert_eq!(f.title, "X");
    assert_eq!(f.body, "Body");
    match f.metadata {
        Metadata::Article { date, modified, category } => {
            assert_eq!(date, Timestamp { seconds: JAN_FIRST_2024_EASTERN });
            assert_eq!(modified, None);
            assert_eq!(category, "misc");
        }
        Metadata::Page { .. } => panic!("expected an article"),
    }
}

#[test]
fn frontmatter_ends_at_first_blank_line() {
    let r = parse_frontmatter("title: X\n\ndate: 2024-01-01\ncategory: misc\n\nBody");
    assert!(matches!(r.err(), Some(FrontmatterError::UnclassifiableMetadata)));
}

#[test]
fn page_frontmatter() {
    let f = parse_frontmatter("title: About\ndescription: hello\n\ntext").ok().unwrap();
    assert_eq!(f.title, "About");
    match f.metadata {
        Metadata::Page { description } => assert_eq!(description, "hello"),
        Metadata::Article { .. } => panic!("expected a page"),
    }
}

#[test]
fn missing_blank_line() {
    let r = parse_frontmatter("title: X\ndescription: hello\nBody");
    assert!(matches!(r.err(), Some(FrontmatterError::MissingFrontmatter)));
}

#[test]
fn missing_title() {
    let r = parse_frontmatter("description: hello\n\nBody");
    assert!(matches!(r.err(), Some(FrontmatterError::MissingTitle)));
}

#[test]
fn keys_are_trimmed_lowercased_and_last_wins() {
    let f = parse_frontmatter("  TITLE : first \nTitle:  second  \nDescription: a: b\n\n").ok().unwrap();
    assert_eq!(f.title, "second");
    assert_eq!(f.body, "");
    match f.metadata {
        Metadata::Page { description } => assert_eq!(description, "a: b"),
        Metadata::Article { .. } => panic!("expected a page"),
    }
}

#[test]
fn unparseable_date_falls_back_to_page() {
    let f = parse_frontmatter("title: T\ndate: someday\ncategory: c\ndescription: d\n\nx").ok().unwrap();
    assert!(matches!(f.metadata, Metadata::Page { .. }));
}

#[test]
fn modified_date_is_kept() {
    let f = parse_frontmatter("title: T\ndate: 2024-01-01\nmodified: 2024-01-02\ncategory: c\n\nx").ok().unwrap();
    match f.metadata {
        Metadata::Article { modified, .. } => {
            assert_eq!(modified, Some(Timestamp { seconds: JAN_FIRST_2024_EASTERN + 86400 }))
        }
        Metadata::Page { .. } => panic!("expected an article"),
    }
}

fn article_date(text: &str) -> Option<Timestamp> {
    let f = parse_frontmatter(&format!("title: T\ndate: {text}\ncategory: c\ndescription: d\n\nx")).ok().unwrap();
    match f.metadata {
        Metadata::Article { date, .. } => Some(date),
        Metadata::Page { .. } => None,
    }
}

#[test]
fn eastern_dates() {
    assert_eq!(article_date("2024-01-01"), Some(Timestamp { seconds: JAN_FIRST_2024_EASTERN }));
    assert_eq!(article_date("2024-07-01"), Some(Timestamp { seconds: 1719806400 }));
    assert_eq!(article_date("2024-13-01"), None);
    assert_eq!(article_date("yesterday"), None);
}

#[test]
fn font_style_patch() {
    assert_eq!(patch_css("d2-123-font-bold;"), "Fira Sans;font-weight:bold;");
    assert_eq!(patch_css("d2-7-font-regular;"), "Fira Sans;");
    assert_eq!(patch_css("\"d2-7-font-italic\";"), "Fira Sans;font-style:italic;");
    assert_eq!(patch_css("font-family:d2-42-font-semibold;x"), "font-family:Fira Sans;font-weight:600;x");
    assert_eq!(patch_css("d2-font-bold;"), "d2-font-bold;");
    assert_eq!(patch_css("nothing here"), "nothing here");
}

#[test]
fn font_declarations() {
    assert_eq!(font_declaration("m", "regular"), "Fira Sans;");
    assert_eq!(font_declaration("m", "bold"), "Fira Sans;font-weight:bold;");
    assert_eq!(font_declaration("m", "italic"), "Fira Sans;font-style:italic;");
    assert_eq!(font_declaration("m", "semibold"), "Fira Sans;font-weight:600;");
    assert_eq!(font_declaration("m", "thin"), "m");
}

#[test]
fn diagnostic_lines() {
    let d = classify_diagnostic("info: hello");
    assert_eq!(d.level, LogLevel::Info);
    assert_eq!(d.message, "hello");
    let d = classify_diagnostic("err: boom");
    assert_eq!(d.level, LogLevel::Error);
    assert_eq!(d.message, "boom");
    let d = classify_diagnostic("nocolonhere");
    assert_eq!(d.level, LogLevel::Info);
    assert_eq!(d.message, "nocolonhere");
    let d = classify_diagnostic("err: a: b");
    assert_eq!(d.level, LogLevel::Error);
    assert_eq!(d.message, "a: b");
    let d = classify_diagnostic("warn: careful");
    assert_eq!(d.level, LogLevel::Info);
    assert_eq!(d.message, "warn: careful");
}

#[test]
fn compiler_input() {
    assert_eq!(d2_input(b"vars: {}\n", b"a -> b"), b"vars: {}\na -> b".to_vec());
    assert_eq!(d2_input(b"", b""), Vec::<u8>::new());
}

#[test]
fn diagnostic_stream() {
    let ds = classify_diagnostics("info: compiling\r\nerr: bad shape\nplain line\n");
    assert_eq!(ds.len(), 3);
    assert_eq!((ds[0].level, ds[0].message.as_str()), (LogLevel::Info, "compiling"));
    assert_eq!((ds[1].level, ds[1].message.as_str()), (LogLevel::Error, "bad shape"));
    assert_eq!((ds[2].level, ds[2].message.as_str()), (LogLevel::Info, "plain line"));
    assert!(classify_diagnostics("").is_empty());
    let ds = classify_diagnostics("a\n\nb");
    assert_eq!(ds.len(), 3);
    assert_eq!(ds[1].message, "");
}

use sitegen::markup::{postprocess_svg_styles, walk_to_styles, MarkupElement, MarkupNode};

fn element(name: &str, children: Vec<MarkupNode>) -> MarkupElement {
    MarkupElement {
        prefix: None,
        namespace: Some("http://www.w3.org/2000/svg".to_string()),
        namespaces: None,
        name: name.to_string(),
        attributes: vec![("class".to_string(), name.to_string())],
        children,
    }
}

fn text_children(node: &MarkupNode) -> Vec<String> {
    match node {
        MarkupNode::Element(e) => e
            .children
            .iter()
            .map(|c| match c {
                MarkupNode::Text(t) => format!("text:{t}"),
                MarkupNode::CData(t) => format!("cdata:{t}"),
                MarkupNode::Comment(t) => format!("comment:{t}"),
                MarkupNode::Element(e) => format!("element:{}", e.name),
                MarkupNode::ProcessingInstruction(n, _) => format!("pi:{n}"),
            })
            .collect(),
        _ => vec![],
    }
}

#[test]
fn style_blocks_are_repaired_at_any_depth() {
    let style = element(
        "style",
        vec![
            MarkupNode::Text(".a{font-family:d2-1-font-bold;}".to_string()),
            MarkupNode::Comment("note".to_string()),
            MarkupNode::CData(".b{font-family:\"d2-2-font-italic\";}".to_string()),
        ],
    );
    let nested = element("g", vec![MarkupNode::Element(element("style", vec![]))]);
    let root = element(
        "svg",
        vec![
            MarkupNode::Element(style),
            MarkupNode::Element(nested),
            MarkupNode::Text("d2-3-font-regular;".to_string()),
        ],
    );
    let out = postprocess_svg_styles(root);
    assert_eq!(out.name, "svg");
    assert_eq!(out.attributes, vec![("class".to_string(), "svg".to_string())]);
    assert_eq!(out.children.len(), 3);
    assert_eq!(
        text_children(&out.children[0]),
        vec!["text:.a{font-family:Fira Sans;font-weight:bold;}.b{font-family:Fira Sans;font-style:italic;}"]
    );
    match &out.children[1] {
        MarkupNode::Element(g) => {
            assert_eq!(g.name, "g");
            assert_eq!(text_children(&g.children[0]), vec!["text:"]);
        }
        _ => panic!("expected an element"),
    }
    assert!(matches!(&out.children[2], MarkupNode::Text(t) if t == "d2-3-font-regular;"));
}

#[test]
fn root_style_element_is_walked() {
    let node = MarkupNode::Element(element("style", vec![MarkupNode::Text("d2-9-font-semibold;".to_string())]));
    assert_eq!(text_children(&walk_to_styles(node)), vec!["text:Fira Sans;font-weight:600;"]);
    let other = walk_to_styles(MarkupNode::Comment("d2-9-font-bold;".to_string()));
    assert!(matches!(other, MarkupNode::Comment(t) if t == "d2-9-font-bold;"));
}
