//! The output node model: a tagged tree of HTML elements together with a
//! deterministic serializer.  Containers carry an ordered attribute list and
//! an ordered child list; void elements are self-closing; text payloads are
//! HTML-escaped at serialization; raw payloads pass through verbatim.

use vstd::prelude::*;

verus! {

use vstd::string::StringExecFns;
use vstd::string::StrSliceExecFns;
use vstd::utf8::encode_utf8;

/// The tag kinds that carry both attributes and children.
#[derive(Clone, Copy, PartialEq, Eq, Structural, Debug)]
pub enum ContainerKind {
    Head,
    Title,
    Body,
    H1,
    H2,
    H3,
    H4,
    H5,
    H6,
    P,
    Pre,
    Blockquote,
    Ol,
    Ul,
    Li,
    Dl,
    Dt,
    Dd,
    Div,
    Table,
    Tr,
    Th,
    Td,
    A,
    I,
    B,
    S,
    Sub,
    Sup,
    Code,
    Mark,
    Span,
    Style,
    Section,
    U,
    Details,
    Summary,
    Thead,
    Tbody,
    Figure,
    Figcaption,
}

/// The self-closing tag kinds: attribute list only, no children.
#[derive(Clone, Copy, PartialEq, Eq, Structural, Debug)]
pub enum VoidKind {
    Link,
    Meta,
    Hr,
    Br,
    Img,
}

/// Attribute list and child list of an element.  Attributes are opaque,
/// pre-formatted `name="value"` strings; they are replaced wholesale, never
/// merged.
#[derive(Debug)]
pub struct Meta {
    pub attrs: Vec<String>,
    pub children: Vec<Element>,
}

/// One node of the output tree.
#[derive(Debug)]
pub enum Element {
    /// Document wrapper: emits the doctype line, then its children.
    Doctype(Meta),
    /// The document root: exactly a head and a body.
    Html(Box<Element>, Box<Element>),
    /// An ordinary element with attributes and children.
    Container(ContainerKind, Meta),
    /// A self-closing element; any children are ignored.
    Void(VoidKind, Meta),
    /// An HTML comment.
    Comment(String),
    /// Literal text, HTML-escaped when serialized.
    Text(String),
    /// Raw markup, emitted verbatim.
    Raw(String),
    /// Produces no output at all.
    Empty,
}

/// The mathematical model of an element: the same tree over `Seq`.
#[verifier::ext_equal]
pub ghost enum ElemV {
    Doctype { children: Seq<ElemV> },
    Html { head: Box<ElemV>, body: Box<ElemV> },
    Container { kind: ContainerKind, attrs: Seq<Seq<char>>, children: Seq<ElemV> },
    Void { vkind: VoidKind, attrs: Seq<Seq<char>> },
    Comment { text: Seq<char> },
    Text { text: Seq<char> },
    Raw { text: Seq<char> },
    Empty,
}

/// The model of an element.
pub open spec fn elem_view(e: Element) -> ElemV
    decreases e,
{
    match e {
        Element::Doctype(m) => ElemV::Doctype { children: elems_view(m.children@) },
        Element::Html(h, b) => ElemV::Html {
            head: Box::new(elem_view(*h)),
            body: Box::new(elem_view(*b)),
        },
        Element::Container(k, m) => ElemV::Container {
            kind: k,
            attrs: m.attrs.deep_view(),
            children: elems_view(m.children@),
        },
        Element::Void(k, m) => ElemV::Void { vkind: k, attrs: m.attrs.deep_view() },
        Element::Comment(s) => ElemV::Comment { text: s@ },
        Element::Text(s) => ElemV::Text { text: s@ },
        Element::Raw(s) => ElemV::Raw { text: s@ },
        Element::Empty => ElemV::Empty,
    }
}

/// The models of a sequence of elements, in order.
pub open spec fn elems_view(s: Seq<Element>) -> Seq<ElemV>
    decreases s,
{
    if s.len() == 0 {
        Seq::empty()
    } else {
        elems_view(s.drop_last()).push(elem_view(s.last()))
    }
}

/// The element-list model keeps length and maps each entry pointwise.
pub proof fn lemma_elems_view_index(s: Seq<Element>, i: int)
    requires
        0 <= i < s.len(),
    ensures
        elems_view(s).len() == s.len(),
        elems_view(s)[i] == elem_view(s[i]),
    decreases s,
{
    lemma_elems_view_len(s);
    if i < s.len() - 1 {
        lemma_elems_view_index(s.drop_last(), i);
    }
}

/// The element-list model has the same length as the list.
pub proof fn lemma_elems_view_len(s: Seq<Element>)
    ensures
        elems_view(s).len() == s.len(),
    decreases s,
{
    if s.len() > 0 {
        lemma_elems_view_len(s.drop_last());
    }
}

impl View for Element {
    type V = ElemV;

    open spec fn view(&self) -> ElemV {
        elem_view(*self)
    }
}

/// The tag text of a container kind.
pub open spec fn tag_chars(k: ContainerKind) -> Seq<char> {
    match k {
        ContainerKind::Head => "head"@,
        ContainerKind::Title => "title"@,
        ContainerKind::Body => "body"@,
        ContainerKind::H1 => "h1"@,
        ContainerKind::H2 => "h2"@,
        ContainerKind::H3 => "h3"@,
        ContainerKind::H4 => "h4"@,
        ContainerKind::H5 => "h5"@,
        ContainerKind::H6 => "h6"@,
        ContainerKind::P => "p"@,
        ContainerKind::Pre => "pre"@,
        ContainerKind::Blockquote => "blockquote"@,
        ContainerKind::Ol => "ol"@,
        ContainerKind::Ul => "ul"@,
        ContainerKind::Li => "li"@,
        ContainerKind::Dl => "dl"@,
        ContainerKind::Dt => "dt"@,
        ContainerKind::Dd => "dd"@,
        ContainerKind::Div => "div"@,
        ContainerKind::Table => "table"@,
        ContainerKind::Tr => "tr"@,
        ContainerKind::Th => "th"@,
        ContainerKind::Td => "td"@,
        ContainerKind::A => "a"@,
        ContainerKind::I => "i"@,
        ContainerKind::B => "b"@,
        ContainerKind::S => "s"@,
        ContainerKind::Sub => "sub"@,
        ContainerKind::Sup => "sup"@,
        ContainerKind::Code => "code"@,
        ContainerKind::Mark => "mark"@,
        ContainerKind::Span => "span"@,
        ContainerKind::Style => "style"@,
        ContainerKind::Section => "section"@,
        ContainerKind::U => "u"@,
        ContainerKind::Details => "details"@,
        ContainerKind::Summary => "summary"@,
        ContainerKind::Thead => "thead"@,
        ContainerKind::Tbody => "tbody"@,
        ContainerKind::Figure => "figure"@,
        ContainerKind::Figcaption => "figcaption"@,
    }
}

/// The tag text of a void kind.
pub open spec fn void_tag_chars(k: VoidKind) -> Seq<char> {
    match k {
        VoidKind::Link => "link"@,
        VoidKind::Meta => "meta"@,
        VoidKind::Hr => "hr"@,
        VoidKind::Br => "br"@,
        VoidKind::Img => "img"@,
    }
}

/// The escape of one character of literal text.
pub open spec fn esc_char(c: char) -> Seq<char> {
    if c == '&' {
        seq!['&', 'a', 'm', 'p', ';']
    } else if c == '<' {
        seq!['&', 'l', 't', ';']
    } else if c == '>' {
        seq!['&', 'g', 't', ';']
    } else {
        seq![c]
    }
}

/// HTML escaping of literal text: `&`, `<` and `>` become entities.
pub open spec fn escape_seq(s: Seq<char>) -> Seq<char>
    decreases s.len(),
{
    if s.len() == 0 {
        Seq::empty()
    } else {
        escape_seq(s.drop_last()) + esc_char(s.last())
    }
}

/// The inverse reading of escaped text: the three entities become their
/// characters again; everything else is taken as it stands.
pub open spec fn unescape_seq(s: Seq<char>) -> Seq<char>
    decreases s.len(),
{
    if s.len() == 0 {
        Seq::empty()
    } else if s.len() >= 5 && s.subrange(0, 5) == seq!['&', 'a', 'm', 'p', ';'] {
        seq!['&'] + unescape_seq(s.subrange(5, s.len() as int))
    } else if s.len() >= 4 && s.subrange(0, 4) == seq!['&', 'l', 't', ';'] {
        seq!['<'] + unescape_seq(s.subrange(4, s.len() as int))
    } else if s.len() >= 4 && s.subrange(0, 4) == seq!['&', 'g', 't', ';'] {
        seq!['>'] + unescape_seq(s.subrange(4, s.len() as int))
    } else {
        seq![s[0]] + unescape_seq(s.drop_first())
    }
}

/// Serialization of an attribute list: one space before each attribute.
pub open spec fn ser_attrs(attrs: Seq<Seq<char>>) -> Seq<char>
    decreases attrs.len(),
{
    if attrs.len() == 0 {
        Seq::empty()
    } else {
        ser_attrs(attrs.drop_last()) + " "@ + attrs.last()
    }
}

/// Serialization of a child list, in order.
pub open spec fn ser_list(vs: Seq<ElemV>) -> Seq<char>
    decreases vs,
{
    if vs.len() == 0 {
        Seq::empty()
    } else {
        ser_list(vs.drop_last()) + ser(vs.last())
    }
}

/// The deterministic serialization of an element model.
pub open spec fn ser(v: ElemV) -> Seq<char>
    decreases v,
{
    match v {
        ElemV::Doctype { children } => "<!DOCTYPE html>\n"@ + ser_list(children),
        ElemV::Html { head, body } => "<html lang=\"en\">"@ + ser(*head) + ser(*body)
            + "</html>"@,
        ElemV::Container { kind, attrs, children } => "<"@ + tag_chars(kind) + ser_attrs(attrs)
            + ">"@ + ser_list(children) + "</"@ + tag_chars(kind) + ">"@,
        ElemV::Void { vkind, attrs } => "<"@ + void_tag_chars(vkind) + ser_attrs(attrs) + ">"@,
        ElemV::Comment { text } => "\n<!-- "@ + text + " -->\n"@,
        ElemV::Text { text } => escape_seq(text),
        ElemV::Raw { text } => text,
        ElemV::Empty => Seq::empty(),
    }
}

fn container_tag(k: ContainerKind) -> (r: &'static str)
    ensures
        r@ == tag_chars(k),
{
    match k {
        ContainerKind::Head => "head",
        ContainerKind::Title => "title",
        ContainerKind::Body => "body",
        ContainerKind::H1 => "h1",
        ContainerKind::H2 => "h2",
        ContainerKind::H3 => "h3",
        ContainerKind::H4 => "h4",
        ContainerKind::H5 => "h5",
        ContainerKind::H6 => "h6",
        ContainerKind::P => "p",
        ContainerKind::Pre => "pre",
        ContainerKind::Blockquote => "blockquote",
        ContainerKind::Ol => "ol",
        ContainerKind::Ul => "ul",
        ContainerKind::Li => "li",
        ContainerKind::Dl => "dl",
        ContainerKind::Dt => "dt",
        ContainerKind::Dd => "dd",
        ContainerKind::Div => "div",
        ContainerKind::Table => "table",
        ContainerKind::Tr => "tr",
        ContainerKind::Th => "th",
        ContainerKind::Td => "td",
        ContainerKind::A => "a",
        ContainerKind::I => "i",
        ContainerKind::B => "b",
        ContainerKind::S => "s",
        ContainerKind::Sub => "sub",
        ContainerKind::Sup => "sup",
        ContainerKind::Code => "code",
        ContainerKind::Mark => "mark",
        ContainerKind::Span => "span",
        ContainerKind::Style => "style",
        ContainerKind::Section => "section",
        ContainerKind::U => "u",
        ContainerKind::Details => "details",
        ContainerKind::Summary => "summary",
        ContainerKind::Thead => "thead",
        ContainerKind::Tbody => "tbody",
        ContainerKind::Figure => "figure",
        ContainerKind::Figcaption => "figcaption",
    }
}

fn void_tag(k: VoidKind) -> (r: &'static str)
    ensures
        r@ == void_tag_chars(k),
{
    match k {
        VoidKind::Link => "link",
        VoidKind::Meta => "meta",
        VoidKind::Hr => "hr",
        VoidKind::Br => "br",
        VoidKind::Img => "img",
    }
}

/// HTML-escape a string: `&` to `&amp;`, `<` to `&lt;`, `>` to `&gt;`.
pub fn escape_text(s: &str) -> (r: String)
    ensures
        r@ == escape_seq(s@),
{
    let chars = crate::text::str_to_chars(s);
    let mut out = String::new();
    let mut i: usize = 0;
    while i < chars.len()
        invariant
            i <= chars@.len(),
            chars@ == s@,
            out@ == escape_seq(s@.subrange(0, i as int)),
        decreases chars@.len() - i,
    {
        let c = chars[i];
        if c == '&' {
            out.append("&amp;");
            proof {
                reveal_strlit("&amp;");
            }
        } else if c == '<' {
            out.append("&lt;");
            proof {
                reveal_strlit("&lt;");
            }
        } else if c == '>' {
            out.append("&gt;");
            proof {
                reveal_strlit("&gt;");
            }
        } else {
            crate::text::push_char(&mut out, c);
        }
        i = i + 1;
        proof {
            assert(s@.subrange(0, i as int).drop_last() =~= s@.subrange(0, i - 1));
            assert(out@ =~= escape_seq(s@.subrange(0, i as int)));
        }
    }
    proof {
        assert(s@.subrange(0, s@.len() as int) =~= s@);
    }
    out
}

/// Clone a list of attribute strings, preserving it exactly.
pub fn clone_strings(v: &Vec<String>) -> (r: Vec<String>)
    ensures
        r@ == v@,
{
    let mut r: Vec<String> = Vec::new();
    let mut i: usize = 0;
    while i < v.len()
        invariant
            i <= v@.len(),
            r@ == v@.subrange(0, i as int),
        decreases v@.len() - i,
    {
        r.push(v[i].clone());
        i = i + 1;
        proof {
            assert(r@ =~= v@.subrange(0, i as int));
        }
    }
    proof {
        assert(r@ =~= v@);
    }
    r
}

/// Clone one element; the copy has the same model.
pub fn clone_element(e: &Element) -> (r: Element)
    ensures
        elem_view(r) == elem_view(*e),
    decreases *e,
{
    match e {
        Element::Doctype(m) => Element::Doctype(
            Meta { attrs: clone_strings(&m.attrs), children: clone_elements(&m.children) },
        ),
        Element::Html(h, b) => Element::Html(
            Box::new(clone_element(h)),
            Box::new(clone_element(b)),
        ),
        Element::Container(k, m) => Element::Container(
            *k,
            Meta { attrs: clone_strings(&m.attrs), children: clone_elements(&m.children) },
        ),
        Element::Void(k, m) => Element::Void(
            *k,
            Meta { attrs: clone_strings(&m.attrs), children: clone_elements(&m.children) },
        ),
        Element::Comment(s) => Element::Comment(s.clone()),
        Element::Text(s) => Element::Text(s.clone()),
        Element::Raw(s) => Element::Raw(s.clone()),
        Element::Empty => Element::Empty,
    }
}

/// Clone a list of elements; the copies have the same models, in order.
pub fn clone_elements(v: &Vec<Element>) -> (r: Vec<Element>)
    ensures
        elems_view(r@) == elems_view(v@),
    decreases v@,
{
    let mut r: Vec<Element> = Vec::new();
    let mut i: usize = 0;
    while i < v.len()
        invariant
            i <= v@.len(),
            r@.len() == i,
            elems_view(r@) == elems_view(v@.subrange(0, i as int)),
        decreases v@.len() - i,
    {
        proof {
            assert(decreases_to!(v@ => v@[i as int]));
        }
        let ghost r0 = r@;
        r.push(clone_element(&v[i]));
        i = i + 1;
        proof {
            let sub = v@.subrange(0, i as int);
            assert(sub.drop_last() =~= v@.subrange(0, i - 1));
            assert(sub.last() == v@[i - 1]);
            assert(r@.drop_last() =~= r0);
            assert(elems_view(r@) == elems_view(r0).push(elem_view(r@.last())));
            assert(elems_view(r@) == elems_view(sub));
        }
    }
    proof {
        assert(v@.subrange(0, v@.len() as int) =~= v@);
        assert(elems_view(r@) =~= elems_view(v@));
    }
    r
}

impl Meta {
    /// An element shell with no attributes and no children.
    pub fn new() -> (r: Meta)
        ensures
            r.attrs@.len() == 0,
            r.children@.len() == 0,
    {
        Meta { attrs: Vec::new(), children: Vec::new() }
    }

    /// The same attributes with the given children in place of the old ones.
    pub fn with_children(&self, children: Vec<Element>) -> (r: Meta)
        ensures
            r.attrs@ == self.attrs@,
            r.children == children,
    {
        Meta { attrs: clone_strings(&self.attrs), children }
    }

    /// The same attributes with exactly one child.
    pub fn with_child(&self, child: Element) -> (r: Meta)
        ensures
            r.attrs@ == self.attrs@,
            r.children@ == seq![child],
    {
        let r = Meta { attrs: clone_strings(&self.attrs), children: vec![child] };
        r
    }

    /// The same children with the given attributes in place of the old ones.
    pub fn with_attrs(&self, attrs: Vec<String>) -> (r: Meta)
        ensures
            r.attrs == attrs,
            elems_view(r.children@) == elems_view(self.children@),
    {
        Meta { attrs, children: clone_elements(&self.children) }
    }

    /// The same children with a single attribute in place of the old ones.
    pub fn with_attr(&self, attr: &str) -> (r: Meta)
        ensures
            r.attrs@.len() == 1,
            r.attrs@[0]@ == attr@,
            elems_view(r.children@) == elems_view(self.children@),
    {
        Meta { attrs: vec![attr.to_owned()], children: clone_elements(&self.children) }
    }

    /// A copy of the child list.
    pub fn get_children(&self) -> (r: Vec<Element>)
        ensures
            elems_view(r@) == elems_view(self.children@),
    {
        clone_elements(&self.children)
    }
}

impl Default for Meta {
    /// An element shell with no attributes and no children.
    fn default() -> (r: Meta)
        ensures
            r.attrs@.len() == 0,
            r.children@.len() == 0,
    {
        Meta { attrs: Vec::new(), children: Vec::new() }
    }
}

fn write_children(children: &Vec<Element>) -> (out: String)
    ensures
        out@ == ser_list(elems_view(children@)),
    decreases children@,
{
    let mut out = String::new();
    let mut i: usize = 0;
    while i < children.len()
        invariant
            i <= children@.len(),
            out@ == ser_list(elems_view(children@.subrange(0, i as int))),
        decreases children@.len() - i,
    {
        proof {
            assert(decreases_to!(children@ => children@[i as int]));
        }
        let cs = children[i].write_recursive();
        out.append(cs.as_str());
        i = i + 1;
        proof {
            let sub = children@.subrange(0, i as int);
            assert(sub.drop_last() =~= children@.subrange(0, i - 1));
            assert(sub.last() == children@[i - 1]);
            let pre = elems_view(sub);
            lemma_elems_view_len(sub);
            assert(pre == elems_view(children@.subrange(0, i - 1)).push(elem_view(children@[i - 1])));
            assert(pre.drop_last() =~= elems_view(children@.subrange(0, i - 1)));
            assert(pre.last() == elem_view(children@[i - 1]));
            assert(out@ =~= ser_list(pre));
        }
    }
    proof {
        assert(children@.subrange(0, children@.len() as int) =~= children@);
    }
    out
}

fn attrs_string(attrs: &Vec<String>) -> (out: String)
    ensures
        out@ == ser_attrs(attrs.deep_view()),
{
    let mut out = String::new();
    let mut i: usize = 0;
    while i < attrs.len()
        invariant
            i <= attrs@.len(),
            out@ == ser_attrs(attrs.deep_view().subrange(0, i as int)),
        decreases attrs@.len() - i,
    {
        out.append(" ");
        out.append(attrs[i].as_str());
        i = i + 1;
        proof {
            let pre = attrs.deep_view().subrange(0, i as int);
            assert(pre.drop_last() =~= attrs.deep_view().subrange(0, i - 1));
            assert(pre.last() == attrs.deep_view()[i - 1]);
            assert(out@ =~= ser_attrs(pre));
        }
    }
    proof {
        assert(attrs.deep_view().subrange(0, attrs.deep_view().len() as int) =~= attrs.deep_view());
    }
    out
}

impl Element {
    /// The tag text of this element; empty for the kinds that have none.
    pub fn tag_name(&self) -> (r: String)
        ensures
            match elem_view(*self) {
                ElemV::Container { kind, .. } => r@ == tag_chars(kind),
                ElemV::Void { vkind, .. } => r@ == void_tag_chars(vkind),
                _ => r@ == Seq::<char>::empty(),
            },
    {
        match self {
            Element::Container(k, _) => String::from_str(container_tag(*k)),
            Element::Void(k, _) => String::from_str(void_tag(*k)),
            _ => String::new(),
        }
    }

    /// Serialize this element and everything below it.
    pub fn write_recursive(&self) -> (out: String)
        ensures
            out@ == ser(elem_view(*self)),
        decreases *self,
    {
        match self {
            Element::Doctype(m) => {
                let mut out = String::from_str("<!DOCTYPE html>\n");
                let cs = write_children(&m.children);
                out.append(cs.as_str());
                out
            },
            Element::Html(h, b) => {
                let mut out = String::from_str("<html lang=\"en\">");
                let hs = h.write_recursive();
                out.append(hs.as_str());
                let bs = b.write_recursive();
                out.append(bs.as_str());
                out.append("</html>");
                proof {
                    assert(out@ =~= ser(elem_view(*self)));
                }
                out
            },
            Element::Container(k, m) => {
                let mut out = String::from_str("<");
                out.append(container_tag(*k));
                let ats = attrs_string(&m.attrs);
                out.append(ats.as_str());
                out.append(">");
                let cs = write_children(&m.children);
                out.append(cs.as_str());
                out.append("</");
                out.append(container_tag(*k));
                out.append(">");
                proof {
                    assert(out@ =~= ser(elem_view(*self)));
                }
                out
            },
            Element::Void(k, m) => {
                let mut out = String::from_str("<");
                out.append(void_tag(*k));
                let ats = attrs_string(&m.attrs);
                out.append(ats.as_str());
                out.append(">");
                proof {
                    assert(out@ =~= ser(elem_view(*self)));
                }
                out
            },
            Element::Comment(s) => {
                let mut out = String::from_str("\n<!-- ");
                out.append(s.as_str());
                out.append(" -->\n");
                proof {
                    assert(out@ =~= ser(elem_view(*self)));
                }
                out
            },
            Element::Text(s) => escape_text(s.as_str()),
            Element::Raw(s) => s.clone(),
            Element::Empty => String::new(),
        }
    }

    /// The serialized document as UTF-8 bytes.
    pub fn to_html(&self) -> (out: Vec<u8>)
        ensures
            out@ == encode_utf8(ser(elem_view(*self))),
    {
        let s = self.write_recursive();
        s.as_str().as_bytes_vec()
    }
}


/// `escape_seq` can also be unfolded from the front.
pub proof fn lemma_escape_first(s: Seq<char>)
    requires
        s.len() > 0,
    ensures
        escape_seq(s) == esc_char(s[0]) + escape_seq(s.drop_first()),
    decreases s.len(),
{
    if s.len() == 1 {
        assert(s.drop_last().len() == 0);
        assert(s.drop_first().len() == 0);
        assert(s.last() == s[0]);
        assert(escape_seq(s.drop_last()) == Seq::<char>::empty());
        assert(escape_seq(s.drop_first()) == Seq::<char>::empty());
        assert(escape_seq(s) == escape_seq(s.drop_last()) + esc_char(s.last()));
        assert(escape_seq(s) =~= esc_char(s[0]) + escape_seq(s.drop_first()));
    } else {
        let d = s.drop_last();
        lemma_escape_first(d);
        assert(d[0] == s[0]);
        assert(s.drop_first().drop_last() =~= d.drop_first());
        assert(s.drop_first().last() == s.last());
        assert(escape_seq(s.drop_first()) == escape_seq(d.drop_first()) + esc_char(s.last()));
        assert(escape_seq(s) == escape_seq(d) + esc_char(s.last()));
        assert(escape_seq(s) == (esc_char(s[0]) + escape_seq(d.drop_first())) + esc_char(s.last()));
        assert((esc_char(s[0]) + escape_seq(d.drop_first())) + esc_char(s.last()) =~= esc_char(
            s[0],
        ) + (escape_seq(d.drop_first()) + esc_char(s.last())));
    }
}

/// Escaping of literal text is reversible: reading the escaped form back
/// yields exactly the original text, for every string.
pub proof fn lemma_unescape_escape(s: Seq<char>)
    ensures
        unescape_seq(escape_seq(s)) == s,
    decreases s.len(),
{
    if s.len() > 0 {
        let c = s[0];
        let rest = s.drop_first();
        lemma_escape_first(s);
        lemma_unescape_escape(rest);
        let e = escape_seq(s);
        assert(e == esc_char(c) + escape_seq(rest));
        if c == '&' {
            assert(e.len() >= 5);
            assert(e.subrange(0, 5) =~= seq!['&', 'a', 'm', 'p', ';']);
            assert(e.subrange(5, e.len() as int) =~= escape_seq(rest));
            assert(seq!['&'] + rest =~= s);
        } else if c == '<' {
            assert(e.len() >= 4);
            if e.len() >= 5 && e.subrange(0, 5) == seq!['&', 'a', 'm', 'p', ';'] {
                assert(e.subrange(0, 5)[1] == e[1]);
                assert(false);
            }
            assert(e.subrange(0, 4) =~= seq!['&', 'l', 't', ';']);
            assert(e.subrange(4, e.len() as int) =~= escape_seq(rest));
            assert(seq!['<'] + rest =~= s);
        } else if c == '>' {
            assert(e.len() >= 4);
            if e.len() >= 5 && e.subrange(0, 5) == seq!['&', 'a', 'm', 'p', ';'] {
                assert(e.subrange(0, 5)[1] == e[1]);
                assert(false);
            }
            if e.subrange(0, 4) == seq!['&', 'l', 't', ';'] {
                assert(e.subrange(0, 4)[1] == e[1]);
                assert(false);
            }
            assert(e.subrange(0, 4) =~= seq!['&', 'g', 't', ';']);
            assert(e.subrange(4, e.len() as int) =~= escape_seq(rest));
            assert(seq!['>'] + rest =~= s);
        } else {
            assert(e[0] == c);
            if e.len() >= 5 && e.subrange(0, 5) == seq!['&', 'a', 'm', 'p', ';'] {
                assert(e.subrange(0, 5)[0] == e[0]);
                assert(false);
            }
            if e.len() >= 4 && e.subrange(0, 4) == seq!['&', 'l', 't', ';'] {
                assert(e.subrange(0, 4)[0] == e[0]);
                assert(false);
            }
            if e.len() >= 4 && e.subrange(0, 4) == seq!['&', 'g', 't', ';'] {
                assert(e.subrange(0, 4)[0] == e[0]);
                assert(false);
            }
            assert(e.drop_first() =~= escape_seq(rest));
            assert(seq![c] + rest =~= s);
        }
    }
}

/// Read escaped text back: the three entities become `&`, `<` and `>`.
pub fn unescape_text(s: &str) -> (r: String)
    ensures
        r@ == unescape_seq(s@),
{
    let chars = crate::text::str_to_chars(s);
    let n = chars.len();
    let mut out: Vec<char> = Vec::new();
    let mut i: usize = 0;
    proof {
        assert(s@.subrange(0, n as int) =~= s@);
        assert(out@ + unescape_seq(s@) =~= unescape_seq(s@));
    }
    while i < n
        invariant
            i <= n,
            n == s@.len(),
            chars@ == s@,
            out@ + unescape_seq(s@.subrange(i as int, n as int)) == unescape_seq(s@),
        decreases n - i,
    {
        let ghost suf = s@.subrange(i as int, n as int);
        let ghost out0 = out@;
        if n - i >= 5 && chars[i] == '&' && chars[i + 1] == 'a' && chars[i + 2] == 'm'
            && chars[i + 3] == 'p' && chars[i + 4] == ';' {
            out.push('&');
            i = i + 5;
            proof {
                assert(suf.subrange(0, 5) =~= seq!['&', 'a', 'm', 'p', ';']);
                assert(suf.subrange(5, suf.len() as int) =~= s@.subrange(i as int, n as int));
                assert(out0.push('&') =~= out0 + seq!['&']);
                assert(out@ + unescape_seq(s@.subrange(i as int, n as int)) =~= unescape_seq(s@));
            }
        } else if n - i >= 4 && chars[i] == '&' && chars[i + 1] == 'l' && chars[i + 2] == 't'
            && chars[i + 3] == ';' {
            out.push('<');
            i = i + 4;
            proof {
                if suf.len() >= 5 && suf.subrange(0, 5) == seq!['&', 'a', 'm', 'p', ';'] {
                    assert(suf.subrange(0, 5)[1] == suf[1]);
                    assert(false);
                }
                assert(suf.subrange(0, 4) =~= seq!['&', 'l', 't', ';']);
                assert(suf.subrange(4, suf.len() as int) =~= s@.subrange(i as int, n as int));
                assert(out0.push('<') =~= out0 + seq!['<']);
                assert(out@ + unescape_seq(s@.subrange(i as int, n as int)) =~= unescape_seq(s@));
            }
        } else if n - i >= 4 && chars[i] == '&' && chars[i + 1] == 'g' && chars[i + 2] == 't'
            && chars[i + 3] == ';' {
            out.push('>');
            i = i + 4;
            proof {
                if suf.len() >= 5 && suf.subrange(0, 5) == seq!['&', 'a', 'm', 'p', ';'] {
                    assert(suf.subrange(0, 5)[1] == suf[1]);
                    assert(false);
                }
                if suf.len() >= 4 && suf.subrange(0, 4) == seq!['&', 'l', 't', ';'] {
                    assert(suf.subrange(0, 4)[1] == suf[1]);
                    assert(false);
                }
                assert(suf.subrange(0, 4) =~= seq!['&', 'g', 't', ';']);
                assert(suf.subrange(4, suf.len() as int) =~= s@.subrange(i as int, n as int));
                assert(out0.push('>') =~= out0 + seq!['>']);
                assert(out@ + unescape_seq(s@.subrange(i as int, n as int)) =~= unescape_seq(s@));
            }
        } else {
            let c = chars[i];
            out.push(c);
            i = i + 1;
            proof {
                if suf.len() >= 5 && suf.subrange(0, 5) == seq!['&', 'a', 'm', 'p', ';'] {
                    assert(suf.subrange(0, 5)[0] == suf[0]);
                    assert(suf.subrange(0, 5)[1] == suf[1]);
                    assert(suf.subrange(0, 5)[2] == suf[2]);
                    assert(suf.subrange(0, 5)[3] == suf[3]);
                    assert(suf.subrange(0, 5)[4] == suf[4]);
                    assert(false);
                }
                if suf.len() >= 4 && suf.subrange(0, 4) == seq!['&', 'l', 't', ';'] {
                    assert(suf.subrange(0, 4)[0] == suf[0]);
                    assert(suf.subrange(0, 4)[1] == suf[1]);
                    assert(suf.subrange(0, 4)[2] == suf[2]);
                    assert(suf.subrange(0, 4)[3] == suf[3]);
                    assert(false);
                }
                assert(suf[0] == c);
                assert(suf.drop_first() =~= s@.subrange(i as int, n as int));
                assert(out0.push(c) =~= out0 + seq![c]);
                assert(out@ + unescape_seq(s@.subrange(i as int, n as int)) =~= unescape_seq(s@));
            }
        }
    }
    proof {
        assert(s@.subrange(i as int, n as int).len() == 0);
        assert(out@ =~= unescape_seq(s@));
    }
    crate::text::chars_to_string(&out)
}


/// The element-list model distributes over concatenation.
pub proof fn lemma_elems_view_concat(a: Seq<Element>, b: Seq<Element>)
    ensures
        elems_view(a + b) == elems_view(a) + elems_view(b),
    decreases b,
{
    if b.len() == 0 {
        assert(a + b =~= a);
        assert(elems_view(b) =~= Seq::<ElemV>::empty());
        assert(elems_view(a) + elems_view(b) =~= elems_view(a));
    } else {
        lemma_elems_view_concat(a, b.drop_last());
        assert((a + b).drop_last() =~= a + b.drop_last());
        assert((a + b).last() == b.last());
        assert(elems_view(a + b) == elems_view(a + b.drop_last()).push(elem_view(b.last())));
        assert(elems_view(b) == elems_view(b.drop_last()).push(elem_view(b.last())));
        assert(elems_view(a) + elems_view(b.drop_last()).push(elem_view(b.last())) =~= (elems_view(
            a,
        ) + elems_view(b.drop_last())).push(elem_view(b.last())));
    }
}


/// The model of a one-element list.
pub proof fn lemma_elems_view_one(s: Seq<Element>)
    requires
        s.len() == 1,
    ensures
        elems_view(s) =~= seq![elem_view(s[0])],
{
    assert(s.drop_last().len() == 0);
    assert(elems_view(s.drop_last()) =~= Seq::<ElemV>::empty());
    assert(s.last() == s[0]);
}

/// The model of a two-element list.
pub proof fn lemma_elems_view_two(s: Seq<Element>)
    requires
        s.len() == 2,
    ensures
        elems_view(s) =~= seq![elem_view(s[0]), elem_view(s[1])],
{
    lemma_elems_view_one(s.drop_last());
    assert(s.drop_last()[0] == s[0]);
    assert(s.last() == s[1]);
}


/// A text node.
pub fn el_text(s: String) -> (r: Element)
    ensures
        elem_view(r) == (ElemV::Text { text: s@ }),
{
    Element::Text(s)
}

/// A raw node, emitted verbatim.
pub fn el_raw(s: String) -> (r: Element)
    ensures
        elem_view(r) == (ElemV::Raw { text: s@ }),
{
    Element::Raw(s)
}

/// A comment node.
pub fn el_comment(s: String) -> (r: Element)
    ensures
        elem_view(r) == (ElemV::Comment { text: s@ }),
{
    Element::Comment(s)
}

/// A container with no attributes.
pub fn el_cont(kind: ContainerKind, children: Vec<Element>) -> (r: Element)
    ensures
        elem_view(r) == (ElemV::Container {
            kind,
            attrs: Seq::empty(),
            children: elems_view(children@),
        }),
{
    let attrs: Vec<String> = Vec::new();
    proof {
        assert(attrs.deep_view() =~= Seq::<Seq<char>>::empty());
    }
    let r = Element::Container(kind, Meta { attrs, children });
    proof {
        assert(elem_view(r) =~= ElemV::Container {
            kind,
            attrs: Seq::empty(),
            children: elem_view(r)->Container_children,
        });
    }
    r
}

/// A container with the given attributes.
pub fn el_cont_attrs(kind: ContainerKind, attrs: Vec<String>, children: Vec<Element>) -> (r:
    Element)
    ensures
        elem_view(r) == (ElemV::Container {
            kind,
            attrs: attrs.deep_view(),
            children: elems_view(children@),
        }),
{
    Element::Container(kind, Meta { attrs, children })
}

/// A container with one attribute.
pub fn el_cont1(kind: ContainerKind, attr: String, children: Vec<Element>) -> (r: Element)
    ensures
        elem_view(r) == (ElemV::Container {
            kind,
            attrs: seq![attr@],
            children: elems_view(children@),
        }),
{
    let ghost av = attr@;
    let attrs = vec![attr];
    proof {
        assert(attrs.deep_view() =~= seq![av]);
    }
    Element::Container(kind, Meta { attrs, children })
}

/// A container with no attributes and one child.
pub fn el_one(kind: ContainerKind, child: Element) -> (r: Element)
    ensures
        elem_view(r) == (ElemV::Container {
            kind,
            attrs: Seq::empty(),
            children: seq![elem_view(child)],
        }),
{
    let ghost cv = elem_view(child);
    let children = vec![child];
    proof {
        lemma_elems_view_one(children@);
    }
    el_cont(kind, children)
}

/// A container with no attributes and two children.
pub fn el_two(kind: ContainerKind, a: Element, b: Element) -> (r: Element)
    ensures
        elem_view(r) == (ElemV::Container {
            kind,
            attrs: Seq::empty(),
            children: seq![elem_view(a), elem_view(b)],
        }),
{
    let ghost av = elem_view(a);
    let ghost bv = elem_view(b);
    let children = vec![a, b];
    proof {
        lemma_elems_view_two(children@);
    }
    el_cont(kind, children)
}

/// A void element with the given attributes.
pub fn el_void(vkind: VoidKind, attrs: Vec<String>) -> (r: Element)
    ensures
        elem_view(r) == (ElemV::Void { vkind, attrs: attrs.deep_view() }),
{
    Element::Void(vkind, Meta { attrs, children: Vec::new() })
}


/// Length and pointwise form of the element-list model.
pub proof fn lemma_elems_view_points(s: Seq<Element>)
    ensures
        elems_view(s).len() == s.len(),
        forall|i: int| 0 <= i < s.len() ==> elems_view(s)[i] == elem_view(s[i]),
{
    lemma_elems_view_len(s);
    assert forall|i: int| 0 <= i < s.len() implies elems_view(s)[i] == elem_view(s[i]) by {
        lemma_elems_view_index(s, i);
    }
}

/// Inserting an element commutes with taking the list model.
pub proof fn lemma_elems_view_insert(s: Seq<Element>, j: int, x: Element)
    requires
        0 <= j <= s.len(),
    ensures
        elems_view(s.insert(j, x)) =~= elems_view(s).insert(j, elem_view(x)),
{
    lemma_elems_view_points(s);
    lemma_elems_view_points(s.insert(j, x));
}


/// A container with one attribute and one child.
pub fn el_cont1_one(kind: ContainerKind, attr: String, child: Element) -> (r: Element)
    ensures
        elem_view(r) == (ElemV::Container {
            kind,
            attrs: seq![attr@],
            children: seq![elem_view(child)],
        }),
{
    let ghost cv = elem_view(child);
    let children = vec![child];
    proof {
        lemma_elems_view_one(children@);
    }
    el_cont1(kind, attr, children)
}

} // verus!
