use md2html::html::{ContainerKind, Element, Meta, VoidKind};

fn text(s: &str) -> Element {
    Element::Text(String::from(s))
}

#[test]
fn serialize_container_with_attrs() {
    let el = Element::Container(
        ContainerKind::P,
        Meta::new().with_attr("class=\"x\"").with_children(vec![text("hi")]),
    );
    assert_eq!(el.write_recursive(), "<p class=\"x\">hi</p>");
}

#[test]
fn serialize_void_element() {
    let el = Element::Void(VoidKind::Img, Meta::new().with_attrs(vec![
        String::from("src=\"a.png\""),
        String::from("alt=\"a\""),
    ]));
    assert_eq!(el.write_recursive(), "<img src=\"a.png\" alt=\"a\">");
}

#[test]
fn serialize_escapes_text() {
    let el = Element::Container(ContainerKind::Span, Meta::new().with_child(text("a<b&c>d")));
    assert_eq!(el.write_recursive(), "<span>a&lt;b&amp;c&gt;d</span>");
}

#[test]
fn serialize_raw_verbatim() {
    let el = Element::Raw(String::from("<em>kept</em>"));
    assert_eq!(el.write_recursive(), "<em>kept</em>");
}

#[test]
fn serialize_comment_and_empty() {
    let c = Element::Comment(String::from("note"));
    assert_eq!(c.write_recursive(), "\n<!-- note -->\n");
    assert_eq!(Element::Empty.write_recursive(), "");
}

#[test]
fn serialize_document_wrappers() {
    let head = Element::Container(ContainerKind::Head, Meta::new());
    let body = Element::Container(ContainerKind::Body, Meta::new().with_child(text("x")));
    let html = Element::Html(Box::new(head), Box::new(body));
    let doc = Element::Doctype(Meta::new().with_child(html));
    assert_eq!(
        doc.write_recursive(),
        "<!DOCTYPE html>\n<html lang=\"en\"><head></head><body>x</body></html>"
    );
}

#[test]
fn tag_names() {
    let p = Element::Container(ContainerKind::P, Meta::new());
    assert_eq!(p.tag_name(), "p");
    let br = Element::Void(VoidKind::Br, Meta::new());
    assert_eq!(br.tag_name(), "br");
    assert_eq!(Element::Empty.tag_name(), "");
}

#[test]
fn meta_builders() {
    let m = Meta::new();
    assert_eq!(m.get_children().len(), 0);
    let m2 = m.with_child(text("a"));
    assert_eq!(m2.get_children().len(), 1);
    let m3 = m2.with_attr("id=\"x\"");
    assert_eq!(m3.get_children().len(), 1);
    let m4 = m3.with_children(vec![text("a"), text("b")]);
    assert_eq!(m4.get_children().len(), 2);
}

#[test]
fn to_html_bytes() {
    let el = Element::Container(ContainerKind::B, Meta::new().with_child(text("ok")));
    assert_eq!(el.to_html(), b"<b>ok</b>".to_vec());
}
