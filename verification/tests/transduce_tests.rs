use md2html::err::ConvError;
use md2html::html::Element;
use md2html::state::{State, Timestamp};
use md2html::transduce::{char_to_taskitem, iter_nodes, Alignment, MdKind, MdNode};

fn node(kind: MdKind, children: Vec<MdNode>) -> MdNode {
    MdNode { kind, children }
}

fn leaf(kind: MdKind) -> MdNode {
    MdNode { kind, children: Vec::new() }
}

fn text(s: &str) -> MdNode {
    leaf(MdKind::Text(String::from(s)))
}

fn fresh() -> (State, Timestamp) {
    (
        State::new(String::from("example.org")),
        Timestamp { date_line: String::from(" 1 January, 2024"), stamp: String::from("01/01/2024 00:00:00") },
    )
}

fn run(n: &MdNode) -> (String, State) {
    let (mut st, now) = fresh();
    let el = iter_nodes(n, &mut st, &now).unwrap();
    (el.write_recursive(), st)
}

#[test]
fn every_kind_has_its_wrapper() {
    let front = "+++\ntitle = \"T\"\ntags = [\"a\"]\nauthor = \"A\"\navatar = \"p.png\"\n+++";
    let doc = node(
        MdKind::Document,
        vec![
            leaf(MdKind::FrontMatter(String::from(front))),
            node(MdKind::BlockQuote, vec![text("q")]),
            node(MdKind::List(false), vec![node(MdKind::Item, vec![text("u1")])]),
            node(MdKind::List(true), vec![node(MdKind::Item, vec![text("o1")])]),
            node(
                MdKind::DescriptionList,
                vec![node(
                    MdKind::DescriptionItem,
                    vec![
                        node(MdKind::DescriptionTerm, vec![text("t")]),
                        node(MdKind::DescriptionDetails, vec![text("d")]),
                    ],
                )],
            ),
            leaf(MdKind::CodeBlock(Box::new(Element::Raw(String::from("<pre>code</pre>"))))),
            leaf(MdKind::HtmlBlock(String::from("<nav>block</nav>"))),
            node(MdKind::Paragraph, vec![text("para")]),
            node(MdKind::Heading(2), vec![text("Head")]),
            leaf(MdKind::ThematicBreak),
            node(MdKind::FootnoteDefinition(String::from("1")), vec![text("fn")]),
            node(
                MdKind::Table(vec![Alignment::Left]),
                vec![
                    node(MdKind::TableRow(true), vec![node(MdKind::TableCell, vec![text("h")])]),
                    node(MdKind::TableRow(false), vec![node(MdKind::TableCell, vec![text("c")])]),
                ],
            ),
            node(
                MdKind::TaskItem(Some('x')),
                vec![node(MdKind::Paragraph, vec![text("task")])],
            ),
            leaf(MdKind::SoftBreak),
            leaf(MdKind::LineBreak),
            leaf(MdKind::Code(String::from("x<y"))),
            leaf(MdKind::HtmlInline(String::from("<wbr>"))),
            node(MdKind::Emph, vec![text("em")]),
            node(MdKind::Strong, vec![text("st")]),
            node(MdKind::Strikethrough, vec![text("sk")]),
            node(MdKind::Insert, vec![text("in")]),
            node(MdKind::Superscript, vec![text("sup")]),
            node(MdKind::Subscript, vec![text("sub")]),
            node(MdKind::Highlight, vec![text("hi")]),
            node(
                MdKind::Link(String::from("https://other.net/x"), String::from("tt")),
                vec![text("link")],
            ),
            node(
                MdKind::Image(String::from("i.png"), String::from("cap")),
                vec![text("alt text")],
            ),
            leaf(MdKind::FootnoteReference(String::from("1"))),
            leaf(MdKind::ShortCode(String::from("\u{1F680}"))),
        ],
    );
    let (out, st) = run(&doc);
    for expected in [
        "<section>",
        "<blockquote>",
        "<ul>",
        "<ol>",
        "<li>",
        "<dl>",
        "<dt>",
        "<dd>",
        "<pre>code</pre>",
        "<nav>block</nav>",
        "<p>para</p>",
        "<h2 id=\"heading__head\">",
        "<hr>",
        "<table class=\"table-1\">",
        "<thead>",
        "<tbody>",
        "<tr>",
        "<th>",
        "<td>",
        "class=\"task-item\"",
        "<br>",
        "<span class=\"inline-code\">x&lt;y</span>",
        "<wbr>",
        "<i>em</i>",
        "<b>st</b>",
        "<s>sk</s>",
        "<u>in</u>",
        "<sup>sup</sup>",
        "<sub>sub</sub>",
        "<mark>hi</mark>",
        "<a href=\"https://other.net/x\" title=\"tt\"",
        "<figure>",
        "<img src=\"i.png\" alt=\"alt text\" title=\"cap\">",
        "<figcaption>cap</figcaption>",
        "id=\"footnote-reference-1\"",
        "\u{1F680}",
    ] {
        assert!(out.contains(expected), "missing {expected:?} in {out}");
    }
    assert!(st.front_matter.is_some());
    assert_eq!(st.definitions.len(), 1);
    assert_eq!(st.headings.len(), 1);
}

#[test]
fn footnote_reference_numbering() {
    let doc = node(
        MdKind::Document,
        vec![
            leaf(MdKind::FootnoteReference(String::from("1"))),
            leaf(MdKind::FootnoteReference(String::from("1"))),
            leaf(MdKind::FootnoteReference(String::from("1"))),
        ],
    );
    let (out, st) = run(&doc);
    assert!(out.contains("id=\"footnote-reference-1\""));
    assert!(out.contains("id=\"footnote-reference-1:1\""));
    assert!(out.contains("id=\"footnote-reference-1:2\""));
    assert!(out.contains("[1]"));
    assert!(out.contains("[1:1]"));
    assert!(out.contains("[1:2]"));
    assert_eq!(st.footnote_counter.len(), 1);
    assert_eq!(st.footnote_counter[0].0, "1");
    assert_eq!(st.footnote_counter[0].1, 3);
}

#[test]
fn word_count_and_reading_time() {
    let words = vec!["w"; 240].join(" ");
    let doc = node(MdKind::Document, vec![leaf(MdKind::Text(words))]);
    let (_, st) = run(&doc);
    assert_eq!(st.word_count, 240);
    assert_eq!(st.word_count / 120, 2);
}

#[test]
fn table_alignment_styles() {
    let table = node(
        MdKind::Table(vec![Alignment::Left, Alignment::Center, Alignment::Unset]),
        vec![
            node(MdKind::TableRow(true), vec![node(MdKind::TableCell, vec![text("h")])]),
        ],
    );
    let (_, st) = run(&table);
    assert_eq!(st.styles.len(), 3);
    assert_eq!(
        st.styles[0],
        ".table-1 td:nth-child(1), .table-1 th:nth-child(1) { text-align: left }"
    );
    assert_eq!(
        st.styles[1],
        ".table-1 td:nth-child(2), .table-1 th:nth-child(2) { text-align: center }"
    );
    assert_eq!(
        st.styles[2],
        ".table-1 td:nth-child(3), .table-1 th:nth-child(3) { text-align: initial }"
    );
}

#[test]
fn heading_records_and_anchors() {
    let h = node(MdKind::Heading(3), vec![text("My Title!")]);
    let (out, st) = run(&h);
    assert_eq!(st.headings.len(), 1);
    assert_eq!(st.headings[0].0, 3);
    assert_eq!(st.headings[0].1, "my-title");
    assert_eq!(st.headings[0].2, "My Title!");
    assert!(out.starts_with("<h3 id=\"heading__my-title\">"));
    assert!(out.contains("href=\"#heading__my-title\""));
    assert!(out.contains("&sect;"));
}

#[test]
fn internal_link_has_no_marker() {
    let l = node(
        MdKind::Link(String::from("https://example.org/page"), String::new()),
        vec![text("here")],
    );
    let (out, _) = run(&l);
    assert!(!out.contains("href-external"));
    assert!(out.contains("target=\"_blank\""));
    assert!(out.contains("rel=\"noreferrer\""));
}

#[test]
fn external_link_gets_marker() {
    let l = node(
        MdKind::Link(String::from("https://elsewhere.net/p"), String::new()),
        vec![text("out")],
    );
    let (out, _) = run(&l);
    assert!(out.contains("href-external"));
}

#[test]
fn task_item_markers() {
    for (ch, icon, color) in [
        ('x', "square-check", "limegreen"),
        ('-', "square-minus", "grey"),
        ('+', "square-plus", "deepskyblue"),
        ('X', "square-xmark", "red"),
        ('?', "", "white"),
    ] {
        let el = char_to_taskitem(ch);
        let out = el.write_recursive();
        assert!(out.contains(&format!("fa-solid fa-{icon}")), "{out}");
        assert!(out.contains(&format!("color: {color}")), "{out}");
    }
}

#[test]
fn unknown_emoticon_cannot_happen_but_text_errors_propagate() {
    // a plain text node substitutes fine end to end
    let doc = node(MdKind::Document, vec![text("hello :) (c)")]);
    let (out, _) = run(&doc);
    assert!(out.contains("\u{1F603}"));
    assert!(out.contains("\u{a9}"));
}

#[test]
fn front_matter_parse_error_aborts() {
    let doc = node(
        MdKind::Document,
        vec![leaf(MdKind::FrontMatter(String::from("+++\ntitle oops\n+++")))],
    );
    let (mut st, now) = fresh();
    let r = iter_nodes(&doc, &mut st, &now);
    assert!(matches!(r, Err(ConvError::FrontMatter(_))));
}

#[test]
fn front_matter_overwrites_and_sets_date() {
    let fm1 = "+++\ntitle = \"One\"\ntags = []\nauthor = \"a\"\navatar = \"v\"\n+++";
    let fm2 = "+++\ntitle = \"Two\"\ntags = []\nauthor = \"a\"\navatar = \"v\"\n+++";
    let doc = node(
        MdKind::Document,
        vec![
            leaf(MdKind::FrontMatter(String::from(fm1))),
            leaf(MdKind::FrontMatter(String::from(fm2))),
        ],
    );
    let (_, st) = run(&doc);
    assert_eq!(st.front_matter.unwrap().title, "Two");
    assert_eq!(st.date.stamp, "01/01/2024 00:00:00");
}
