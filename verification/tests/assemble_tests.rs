use md2html::assemble::{build_toc, init, resolve_footnotes, stylesheet_source, transduce_document};
use md2html::err::ConvError;
use md2html::fm::parse_front_matter;
use md2html::html::Element;
use md2html::state::{State, Timestamp};
use md2html::transduce::{iter_nodes, MdKind, MdNode};

fn node(kind: MdKind, children: Vec<MdNode>) -> MdNode {
    MdNode { kind, children }
}

fn leaf(kind: MdKind) -> MdNode {
    MdNode { kind, children: Vec::new() }
}

fn text(s: &str) -> MdNode {
    leaf(MdKind::Text(String::from(s)))
}

const FRONT: &str =
    "+++\ntitle = \"Post\"\ntags = [\"rust\", \"blog\"]\nauthor = \"Ann\"\navatar = \"ann.png\"\n+++";

#[test]
fn front_matter_fields() {
    let fm = parse_front_matter(FRONT).unwrap();
    assert_eq!(fm.title, "Post");
    assert_eq!(fm.tags, vec![String::from("rust"), String::from("blog")]);
    assert_eq!(fm.author, "Ann");
    assert_eq!(fm.avatar, "ann.png");
}

#[test]
fn front_matter_escapes_and_blanks() {
    let fm = parse_front_matter(
        "+++\n\ntitle = \"A \\\"quoted\\\" name\"\n\ntags = [ ]\nauthor = \"x\"\navatar = \"y\"\n+++",
    )
    .unwrap();
    assert_eq!(fm.title, "A \"quoted\" name");
    assert!(fm.tags.is_empty());
}

#[test]
fn front_matter_missing_key_fails() {
    let r = parse_front_matter("+++\ntitle = \"T\"\ntags = []\nauthor = \"a\"\n+++");
    assert!(matches!(r, Err(ConvError::FrontMatter(_))));
}

#[test]
fn front_matter_duplicate_key_fails() {
    let r = parse_front_matter(
        "+++\ntitle = \"T\"\ntitle = \"U\"\ntags = []\nauthor = \"a\"\navatar = \"v\"\n+++",
    );
    assert!(matches!(r, Err(ConvError::FrontMatter(_))));
}

#[test]
fn toc_numbering() {
    let headings: Vec<(u8, String, String)> = [
        (1u8, "a", "A"),
        (2u8, "b", "B"),
        (2u8, "c", "C"),
        (1u8, "d", "D"),
        (3u8, "e", "E"),
    ]
    .iter()
    .map(|(l, id, t)| (*l, String::from(*id), String::from(*t)))
    .collect();
    let entries = build_toc(&headings);
    let rendered: Vec<String> = entries.iter().map(|e| e.write_recursive()).collect();
    let expected = ["1. A", "1.1. B", "1.2. C", "2. D", "2.0.1. E"];
    assert_eq!(rendered.len(), expected.len());
    for (r, e) in rendered.iter().zip(expected.iter()) {
        assert!(r.contains(e), "{r} missing {e}");
    }
    assert!(rendered[0].contains("padding-left: 20px"));
    assert!(rendered[4].contains("padding-left: 60px"));
    assert!(rendered[1].contains("href=\"#heading__b\""));
}

#[test]
fn footnote_resolution_backrefs() {
    // three references to label "1", then its definition
    let doc = node(
        MdKind::Document,
        vec![
            leaf(MdKind::FootnoteReference(String::from("1"))),
            leaf(MdKind::FootnoteReference(String::from("1"))),
            leaf(MdKind::FootnoteReference(String::from("1"))),
            node(MdKind::FootnoteDefinition(String::from("1")), vec![text("the note")]),
        ],
    );
    let mut st = State::new(String::from("example.org"));
    let now = Timestamp { date_line: String::new(), stamp: String::new() };
    iter_nodes(&doc, &mut st, &now).unwrap();
    let items = resolve_footnotes(&st.definitions, &st.footnote_counter).unwrap();
    assert_eq!(items.len(), 1);
    let rendered = items[0].write_recursive();
    assert!(rendered.starts_with("<li><div id=\"footnote-definition-1\">"));
    let first = rendered.find("href=\"#footnote-reference-1\"").unwrap();
    let second = rendered.find("href=\"#footnote-reference-1:1\"").unwrap();
    let third = rendered.find("href=\"#footnote-reference-1:2\"").unwrap();
    assert!(first < second && second < third);
    assert_eq!(rendered.matches('\u{21a9}').count(), 3);
}

#[test]
fn footnote_order_follows_labels() {
    // definitions recorded out of order settle at label - 1
    let doc = node(
        MdKind::Document,
        vec![
            leaf(MdKind::FootnoteReference(String::from("1"))),
            leaf(MdKind::FootnoteReference(String::from("2"))),
            node(MdKind::FootnoteDefinition(String::from("2")), vec![text("second")]),
            node(MdKind::FootnoteDefinition(String::from("1")), vec![text("first")]),
        ],
    );
    let mut st = State::new(String::from("example.org"));
    let now = Timestamp { date_line: String::new(), stamp: String::new() };
    iter_nodes(&doc, &mut st, &now).unwrap();
    // "2" is inserted first; inserting it at position 1 is out of range for an
    // empty list, so resolution reports the bad label
    let r = resolve_footnotes(&st.definitions, &st.footnote_counter);
    assert!(matches!(r, Err(ConvError::BadFootnoteLabel(_))));
}

#[test]
fn footnote_bad_label_fails() {
    let defs = vec![(String::from("abc"), vec![Element::Text(String::from("x"))])];
    let counter = vec![(String::from("abc"), 1usize)];
    let r = resolve_footnotes(&defs, &counter);
    assert!(matches!(r, Err(ConvError::BadFootnoteLabel(_))));
}

#[test]
fn footnote_unreferenced_fails() {
    let defs = vec![(String::from("1"), vec![Element::Text(String::from("x"))])];
    let counter: Vec<(String, usize)> = Vec::new();
    let r = resolve_footnotes(&defs, &counter);
    assert!(matches!(r, Err(ConvError::UnreferencedFootnote(_))));
}

#[test]
fn missing_front_matter_aborts_assembly() {
    let st = State::new(String::from("example.org"));
    let r = init(Element::Empty, st, "body{margin:0}");
    assert!(matches!(r, Err(ConvError::MissingFrontMatter)));
}

#[test]
fn assembled_document_structure() {
    let doc = node(
        MdKind::Document,
        vec![
            leaf(MdKind::FrontMatter(String::from(FRONT))),
            node(MdKind::Heading(1), vec![text("Intro")]),
            node(MdKind::Paragraph, vec![text("Some words here.")]),
        ],
    );
    let (section, state) = transduce_document(&doc, String::from("example.org")).unwrap();
    // the minification collaborator runs between the two library phases
    let source = stylesheet_source(&state, "body{margin: 0px}");
    let minified = css_minify::optimizations::Minifier::default()
        .minify(&source, css_minify::optimizations::Level::Three)
        .unwrap();
    let out = init(section, state, &minified).unwrap().write_recursive();
    assert!(out.starts_with("<!DOCTYPE html>\n"));
    assert!(out.contains("<html lang=\"en\">"));
    assert!(out.contains("Generated using `md2html` on "));
    assert!(out.contains("<title>Post</title>"));
    assert!(out.contains("property=\"og:title\" content=\"Post\""));
    assert!(out.contains("<h1>Post</h1>"));
    assert!(out.contains("#rust"));
    assert!(out.contains("href=\"example.org/tags/rust\""));
    assert!(out.contains("alt=\"Ann\""));
    assert!(out.contains("href=\"example.org/authors/Ann\""));
    assert!(out.contains("0 min read &bull; "));
    assert!(out.contains("Table of Contents"));
    assert!(out.contains("1. Intro"));
    assert!(out.contains("<h1 id=\"heading__intro\">"));
    assert!(out.contains("<p>Some words here.</p>"));
    assert!(out.contains("FOOTNOTES_START"));
    assert!(out.contains("<style>"));
    assert!(out.contains("body{margin:0}"));
}

#[test]
fn front_matter_comments_and_crlf() {
    let fm = parse_front_matter(
        "+++\r\n# post metadata\r\ntitle = \"T\"\r\ntags = []\r\nauthor = \"a\"\r\navatar = \"v\"\r\n+++",
    )
    .unwrap();
    assert_eq!(fm.title, "T");
}

#[test]
fn init_restores_scrollbar_selector() {
    let doc = node(
        MdKind::Document,
        vec![leaf(MdKind::FrontMatter(String::from(FRONT)))],
    );
    let (section, state) = transduce_document(&doc, String::from("example.org")).unwrap();
    let out = init(section, state, "x:-webkit-scrollbar{width:1px}")
        .unwrap()
        .write_recursive();
    assert!(out.contains("x::-webkit-scrollbar{width:1px}"));
}
