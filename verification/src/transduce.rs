//! The recursive transducer: one exhaustive, order-preserving mapping from
//! the parsed input tree to the output node tree, with side effects into the
//! traversal accumulator.  A container's output children are the transduced
//! input children in original order; leaf kinds end the recursion directly.

use vstd::prelude::*;

verus! {

use vstd::string::StringExecFns;
use crate::html::{Element, ElemV, Meta, ContainerKind, VoidKind, elem_view, elems_view};
use crate::state::{State, StateV, Timestamp, TimestampV, fc_advance, fc_advance_spec, fc_lookup, sat_add};
use crate::err::ConvError;
use crate::text::{usize_to_string, count_words, word_count_of, dec_str};
use crate::replace::{subst_typo, subst_emo, replace_typographer, replace_emoticons};
use crate::slug::{slug_chars, htext_list, heading_to_slug};
use crate::fm::{fm_parse, parse_front_matter};

/// Column alignment of a table, as the parser reports it.
#[derive(Clone, Copy, PartialEq, Eq, Structural, Debug)]
pub enum Alignment {
    Unset,
    Left,
    Center,
    Right,
}

/// The kind of one input node, with the literal it carries.
#[derive(Debug)]
pub enum MdKind {
    Document,
    /// The front-matter payload, delimiters included.
    FrontMatter(String),
    BlockQuote,
    /// `true` for an ordered list.
    List(bool),
    Item,
    DescriptionList,
    DescriptionItem,
    DescriptionTerm,
    DescriptionDetails,
    /// The pre-formatted block supplied by the highlighting collaborator.
    CodeBlock(Box<Element>),
    HtmlBlock(String),
    Paragraph,
    /// Level 1 to 6.
    Heading(u8),
    ThematicBreak,
    FootnoteDefinition(String),
    Table(Vec<Alignment>),
    /// `true` for the header row.
    TableRow(bool),
    TableCell,
    Text(String),
    /// The status marker character, if the box is not empty.
    TaskItem(Option<char>),
    SoftBreak,
    LineBreak,
    /// Inline code literal.
    Code(String),
    HtmlInline(String),
    Emph,
    Strong,
    Strikethrough,
    Insert,
    Superscript,
    Subscript,
    Highlight,
    /// Destination URL and title.
    Link(String, String),
    /// Image URL and title.
    Image(String, String),
    FootnoteReference(String),
    /// The emoji text the parser resolved for a shortcode.
    ShortCode(String),
}

/// One input node: its kind and its ordered children.
#[derive(Debug)]
pub struct MdNode {
    pub kind: MdKind,
    pub children: Vec<MdNode>,
}

/// The model of an input node kind.
#[verifier::ext_equal]
pub ghost enum MdKindV {
    Document,
    FrontMatter(Seq<char>),
    BlockQuote,
    List(bool),
    Item,
    DescriptionList,
    DescriptionItem,
    DescriptionTerm,
    DescriptionDetails,
    CodeBlock(ElemV),
    HtmlBlock(Seq<char>),
    Paragraph,
    Heading(u8),
    ThematicBreak,
    FootnoteDefinition(Seq<char>),
    Table(Seq<Alignment>),
    TableRow(bool),
    TableCell,
    Text(Seq<char>),
    TaskItem(Option<char>),
    SoftBreak,
    LineBreak,
    Code(Seq<char>),
    HtmlInline(Seq<char>),
    Emph,
    Strong,
    Strikethrough,
    Insert,
    Superscript,
    Subscript,
    Highlight,
    Link(Seq<char>, Seq<char>),
    Image(Seq<char>, Seq<char>),
    FootnoteReference(Seq<char>),
    ShortCode(Seq<char>),
}

/// The model of an input node.
#[verifier::ext_equal]
pub ghost struct MdV {
    pub kind: MdKindV,
    pub children: Seq<MdV>,
}

/// The model of an input node.
pub open spec fn md_view(n: MdNode) -> MdV
    decreases n,
{
    MdV { kind: md_kind_view(n.kind), children: mds_view(n.children@) }
}

/// The model of an input kind.
pub open spec fn md_kind_view(k: MdKind) -> MdKindV
    decreases k,
{
    match k {
        MdKind::Document => MdKindV::Document,
        MdKind::FrontMatter(s) => MdKindV::FrontMatter(s@),
        MdKind::BlockQuote => MdKindV::BlockQuote,
        MdKind::List(o) => MdKindV::List(o),
        MdKind::Item => MdKindV::Item,
        MdKind::DescriptionList => MdKindV::DescriptionList,
        MdKind::DescriptionItem => MdKindV::DescriptionItem,
        MdKind::DescriptionTerm => MdKindV::DescriptionTerm,
        MdKind::DescriptionDetails => MdKindV::DescriptionDetails,
        MdKind::CodeBlock(e) => MdKindV::CodeBlock(elem_view(*e)),
        MdKind::HtmlBlock(s) => MdKindV::HtmlBlock(s@),
        MdKind::Paragraph => MdKindV::Paragraph,
        MdKind::Heading(l) => MdKindV::Heading(l),
        MdKind::ThematicBreak => MdKindV::ThematicBreak,
        MdKind::FootnoteDefinition(s) => MdKindV::FootnoteDefinition(s@),
        MdKind::Table(a) => MdKindV::Table(a@),
        MdKind::TableRow(h) => MdKindV::TableRow(h),
        MdKind::TableCell => MdKindV::TableCell,
        MdKind::Text(s) => MdKindV::Text(s@),
        MdKind::TaskItem(c) => MdKindV::TaskItem(c),
        MdKind::SoftBreak => MdKindV::SoftBreak,
        MdKind::LineBreak => MdKindV::LineBreak,
        MdKind::Code(s) => MdKindV::Code(s@),
        MdKind::HtmlInline(s) => MdKindV::HtmlInline(s@),
        MdKind::Emph => MdKindV::Emph,
        MdKind::Strong => MdKindV::Strong,
        MdKind::Strikethrough => MdKindV::Strikethrough,
        MdKind::Insert => MdKindV::Insert,
        MdKind::Superscript => MdKindV::Superscript,
        MdKind::Subscript => MdKindV::Subscript,
        MdKind::Highlight => MdKindV::Highlight,
        MdKind::Link(u, t) => MdKindV::Link(u@, t@),
        MdKind::Image(u, t) => MdKindV::Image(u@, t@),
        MdKind::FootnoteReference(s) => MdKindV::FootnoteReference(s@),
        MdKind::ShortCode(s) => MdKindV::ShortCode(s@),
    }
}

/// The models of a list of input nodes, in order.
pub open spec fn mds_view(s: Seq<MdNode>) -> Seq<MdV>
    decreases s,
{
    if s.len() == 0 {
        Seq::empty()
    } else {
        mds_view(s.drop_last()).push(md_view(s.last()))
    }
}

/// The input-node-list model keeps length and maps each entry pointwise.
pub proof fn lemma_mds_view_index(s: Seq<MdNode>, i: int)
    requires
        0 <= i < s.len(),
    ensures
        mds_view(s).len() == s.len(),
        mds_view(s)[i] == md_view(s[i]),
    decreases s,
{
    lemma_mds_view_len(s);
    if i < s.len() - 1 {
        lemma_mds_view_index(s.drop_last(), i);
    }
}

/// The input-node-list model has the same length as the list.
pub proof fn lemma_mds_view_len(s: Seq<MdNode>)
    ensures
        mds_view(s).len() == s.len(),
    decreases s,
{
    if s.len() > 0 {
        lemma_mds_view_len(s.drop_last());
    }
}


/// Dropping the first node commutes with taking the list model.
pub proof fn lemma_mds_view_drop_first(s: Seq<MdNode>)
    requires
        s.len() > 0,
    ensures
        mds_view(s).drop_first() =~= mds_view(s.drop_first()),
{
    lemma_mds_view_len(s);
    lemma_mds_view_len(s.drop_first());
    assert forall|i: int| 0 <= i < s.len() - 1 implies mds_view(s).drop_first()[i] == mds_view(
        s.drop_first(),
    )[i] by {
        lemma_mds_view_index(s, i + 1);
        lemma_mds_view_index(s.drop_first(), i);
        assert(s.drop_first()[i] == s[i + 1]);
    }
}

/// A well-formed input tree: heading levels are 1 to 6, and every table has
/// at least its header row.  The input tree is assumed well-formed per the
/// parser's own grammar.
pub open spec fn md_wf(n: MdV) -> bool
    decreases n,
{
    &&& match n.kind {
        MdKindV::Heading(l) => 1 <= l <= 6,
        MdKindV::Table(_) => n.children.len() >= 1,
        _ => true,
    }
    &&& md_wf_list(n.children)
}

/// Every node of a list is well-formed.
pub open spec fn md_wf_list(s: Seq<MdV>) -> bool
    decreases s,
{
    s.len() == 0 || (md_wf_list(s.drop_last()) && md_wf(s.last()))
}

/// Well-formedness of a list gives well-formedness of each entry and of
/// every prefix.
pub proof fn lemma_md_wf_index(s: Seq<MdV>, i: int)
    requires
        md_wf_list(s),
        0 <= i < s.len(),
    ensures
        md_wf(s[i]),
    decreases s,
{
    if i < s.len() - 1 {
        lemma_md_wf_index(s.drop_last(), i);
    }
}

/// What the `url` crate's parser reports as the domain of a URL: `None`
/// where the text does not parse as an absolute URL or its host is not a
/// domain name.
pub uninterp spec fn domain_of(url: Seq<char>) -> Option<Seq<char>>;

/// Relies on `url::Url::parse` and `url::Url::domain`: the registered host
/// name of the URL, where it has one.
#[verifier::external_body]
fn url_domain(u: &str) -> (r: Option<String>)
    ensures
        match r {
            Option::Some(d) => domain_of(u@) == Option::Some(d@),
            Option::None => domain_of(u@) is None,
        },
{
    match url::Url::parse(u) {
        Ok(h) => h.domain().map(|d| String::from(d)),
        Err(_) => Option::None,
    }
}

/// The `text-align` value of a column alignment; an unset alignment keeps
/// the browser's initial value.
pub open spec fn align_chars(a: Alignment) -> Seq<char> {
    match a {
        Alignment::Center => "center"@,
        Alignment::Left => "left"@,
        Alignment::Unset => "initial"@,
        Alignment::Right => "right"@,
    }
}

fn align_str(a: Alignment) -> (r: &'static str)
    ensures
        r@ == align_chars(a),
{
    match a {
        Alignment::Center => "center",
        Alignment::Left => "left",
        Alignment::Unset => "initial",
        Alignment::Right => "right",
    }
}

/// The one CSS rule for column `col` (1-based) of the table numbered `c`:
/// it selects both header and body cells of that column and sets their
/// `text-align`.
pub open spec fn table_rule(c: usize, col: nat, a: Alignment) -> Seq<char> {
    ".table-"@ + dec_str(c as nat) + " td:nth-child("@ + dec_str(col) + "), .table-"@ + dec_str(
        c as nat,
    ) + " th:nth-child("@ + dec_str(col) + ") { text-align: "@ + align_chars(a) + " }"@
}

/// The CSS rules of one table, one per column, in column order.
pub open spec fn table_rules(aligns: Seq<Alignment>, c: usize) -> Seq<Seq<char>> {
    Seq::new(aligns.len(), |i: int| table_rule(c, (i + 1) as nat, aligns[i]))
}

fn table_rule_x(c: usize, col: usize, a: Alignment) -> (r: String)
    ensures
        r@ == table_rule(c, col as nat, a),
{
    let mut r = String::from_str(".table-");
    r.append(usize_to_string(c).as_str());
    r.append(" td:nth-child(");
    r.append(usize_to_string(col).as_str());
    r.append("), .table-");
    r.append(usize_to_string(c).as_str());
    r.append(" th:nth-child(");
    r.append(usize_to_string(col).as_str());
    r.append(") { text-align: ");
    r.append(align_str(a));
    r.append(" }");
    r
}

/// The status icon of a task-list item, selected by its literal marker
/// character.
pub open spec fn taskitem_view(ch: char) -> ElemV {
    ElemV::Container {
        kind: ContainerKind::Span,
        attrs: seq![taskitem_class(ch), taskitem_style(ch)],
        children: Seq::empty(),
    }
}

/// The icon class for a marker character.
pub open spec fn taskitem_class(ch: char) -> Seq<char> {
    "class=\"fa-solid fa-"@ + taskitem_icon(ch) + "\""@
}

/// The colour style for a marker character.
pub open spec fn taskitem_style(ch: char) -> Seq<char> {
    "style=\"color: "@ + taskitem_color(ch) + "\""@
}

/// The icon name for a marker character.
pub open spec fn taskitem_icon(ch: char) -> Seq<char> {
    if ch == 'x' {
        "square-check"@
    } else if ch == '-' {
        "square-minus"@
    } else if ch == '+' {
        "square-plus"@
    } else if ch == 'X' {
        "square-xmark"@
    } else {
        ""@
    }
}

/// The icon colour for a marker character.
pub open spec fn taskitem_color(ch: char) -> Seq<char> {
    if ch == 'x' {
        "limegreen"@
    } else if ch == '-' {
        "grey"@
    } else if ch == '+' {
        "deepskyblue"@
    } else if ch == 'X' {
        "red"@
    } else {
        "white"@
    }
}

/// The status-icon element for a marker character: checked, dash, plus and
/// cross markers get their icon and colour; any other marker gets an
/// unnamed white icon.
pub fn char_to_taskitem(ch: char) -> (r: Element)
    ensures
        elem_view(r) == taskitem_view(ch),
{
    let icon: &'static str = if ch == 'x' {
        "square-check"
    } else if ch == '-' {
        "square-minus"
    } else if ch == '+' {
        "square-plus"
    } else if ch == 'X' {
        "square-xmark"
    } else {
        ""
    };
    let color: &'static str = if ch == 'x' {
        "limegreen"
    } else if ch == '-' {
        "grey"
    } else if ch == '+' {
        "deepskyblue"
    } else if ch == 'X' {
        "red"
    } else {
        "white"
    };
    let mut class = String::from_str("class=\"fa-solid fa-");
    class.append(icon);
    class.append("\"");
    let mut style = String::from_str("style=\"color: ");
    style.append(color);
    style.append("\"");
    let attrs = vec![class, style];
    proof {
        assert(attrs.deep_view() =~= seq![taskitem_class(ch), taskitem_style(ch)]);
        assert(elems_view(Seq::<Element>::empty()) =~= Seq::<ElemV>::empty());
    }
    let kids: Vec<Element> = Vec::new();
    proof {
        assert(elems_view(kids@) =~= Seq::<ElemV>::empty());
    }
    Element::Container(ContainerKind::Span, Meta { attrs, children: kids })
}

/// A container element model with no attributes.
pub open spec fn plain(kind: ContainerKind, children: Seq<ElemV>) -> ElemV {
    ElemV::Container { kind, attrs: Seq::empty(), children }
}

/// Why a transduction aborted: an emoticon whose shortcode names no emoji
/// (carrying the shortcode), or a malformed front-matter payload (carrying
/// the payload).
#[verifier::ext_equal]
pub ghost enum TransErr {
    Emoticon(Seq<char>),
    FrontMatter(Seq<char>),
}

/// The transduction of one node: the output node and the accumulator after
/// its side effects.  `now` is the timestamp the clock gave for this run.
pub open spec fn trans(n: MdV, st: StateV, now: TimestampV) -> Result<(ElemV, StateV), TransErr>
    decreases n, 2int,
{
    match n.kind {
        MdKindV::Document => match trans_list(n.children, st, now) {
            Result::Ok((cs, st1)) => Result::Ok((plain(ContainerKind::Section, cs), st1)),
            Result::Err(e) => Result::Err(e),
        },
        MdKindV::FrontMatter(payload) => match fm_parse(payload) {
            Option::Some(fmv) => Result::Ok(
                (
                    ElemV::Empty,
                    StateV { front_matter: Option::Some(fmv), date: now, ..st },
                ),
            ),
            Option::None => Result::Err(TransErr::FrontMatter(payload)),
        },
        MdKindV::BlockQuote => match trans_list(n.children, st, now) {
            Result::Ok((cs, st1)) => Result::Ok((plain(ContainerKind::Blockquote, cs), st1)),
            Result::Err(e) => Result::Err(e),
        },
        MdKindV::List(ordered) => match trans_list(n.children, st, now) {
            Result::Ok((cs, st1)) => Result::Ok(
                (
                    plain(
                        if ordered {
                            ContainerKind::Ol
                        } else {
                            ContainerKind::Ul
                        },
                        cs,
                    ),
                    st1,
                ),
            ),
            Result::Err(e) => Result::Err(e),
        },
        MdKindV::Item => match trans_list(n.children, st, now) {
            Result::Ok((cs, st1)) => Result::Ok((plain(ContainerKind::Li, cs), st1)),
            Result::Err(e) => Result::Err(e),
        },
        MdKindV::DescriptionList => match trans_flat(n.children, st, now) {
            Result::Ok((cs, st1)) => Result::Ok((plain(ContainerKind::Dl, cs), st1)),
            Result::Err(e) => Result::Err(e),
        },
        MdKindV::DescriptionItem => Result::Ok((ElemV::Empty, st)),
        MdKindV::DescriptionTerm => match trans_list(n.children, st, now) {
            Result::Ok((cs, st1)) => Result::Ok((plain(ContainerKind::Dt, cs), st1)),
            Result::Err(e) => Result::Err(e),
        },
        MdKindV::DescriptionDetails => match trans_list(n.children, st, now) {
            Result::Ok((cs, st1)) => Result::Ok((plain(ContainerKind::Dd, cs), st1)),
            Result::Err(e) => Result::Err(e),
        },
        MdKindV::CodeBlock(el) => Result::Ok((el, st)),
        MdKindV::HtmlBlock(s) => Result::Ok((ElemV::Raw { text: s }, st)),
        MdKindV::Paragraph => match trans_list(n.children, st, now) {
            Result::Ok((cs, st1)) => Result::Ok((plain(ContainerKind::P, cs), st1)),
            Result::Err(e) => Result::Err(e),
        },
        MdKindV::Heading(level) => match trans_list(n.children, st, now) {
            Result::Ok((cs, st1)) => {
                let title = htext_list(cs);
                let id = slug_chars(title);
                let anchor = ElemV::Container {
                    kind: ContainerKind::A,
                    attrs: seq![
                        "href=\"#heading__"@ + id + "\""@,
                        "class=\"section-logo\""@,
                    ],
                    children: seq![ElemV::Raw { text: "&sect;"@ }],
                };
                let kind = if level == 1 {
                    ContainerKind::H1
                } else if level == 2 {
                    ContainerKind::H2
                } else if level == 3 {
                    ContainerKind::H3
                } else if level == 4 {
                    ContainerKind::H4
                } else if level == 5 {
                    ContainerKind::H5
                } else {
                    ContainerKind::H6
                };
                Result::Ok(
                    (
                        ElemV::Container {
                            kind,
                            attrs: seq!["id=\"heading__"@ + id + "\""@],
                            children: cs.push(anchor),
                        },
                        StateV { headings: st1.headings.push((level, id, title)), ..st1 },
                    ),
                )
            },
            Result::Err(e) => Result::Err(e),
        },
        MdKindV::ThematicBreak => Result::Ok(
            (ElemV::Void { vkind: VoidKind::Hr, attrs: Seq::empty() }, st),
        ),
        MdKindV::FootnoteDefinition(label) => match trans_list(n.children, st, now) {
            Result::Ok((cs, st1)) => Result::Ok(
                (
                    ElemV::Empty,
                    StateV { definitions: st1.definitions.push((label, cs)), ..st1 },
                ),
            ),
            Result::Err(e) => Result::Err(e),
        },
        MdKindV::Table(aligns) => {
            let c = crate::state::sat_inc(st.table_counter);
            let st1 = StateV {
                table_counter: c,
                styles: st.styles + table_rules(aligns, c),
                ..st
            };
            if n.children.len() == 0 {
                Result::Ok((plain(ContainerKind::Table, Seq::empty()), st1))
            } else {
            match trans(n.children[0], st1, now) {
                Result::Ok((hr, st2)) => match trans_list(n.children.drop_first(), st2, now) {
                    Result::Ok((rows, st3)) => Result::Ok(
                        (
                            ElemV::Container {
                                kind: ContainerKind::Table,
                                attrs: seq!["class=\"table-"@ + dec_str(c as nat) + "\""@],
                                children: seq![
                                    plain(ContainerKind::Thead, seq![hr]),
                                    plain(ContainerKind::Tbody, rows),
                                ],
                            },
                            st3,
                        ),
                    ),
                    Result::Err(e) => Result::Err(e),
                },
                Result::Err(e) => Result::Err(e),
            }
            }
        },
        MdKindV::TableRow(header) => {
            if header {
                match trans_header_cells(n.children, st, now) {
                    Result::Ok((cells, st1)) => Result::Ok((plain(ContainerKind::Tr, cells), st1)),
                    Result::Err(e) => Result::Err(e),
                }
            } else {
                match trans_list(n.children, st, now) {
                    Result::Ok((cs, st1)) => Result::Ok((plain(ContainerKind::Tr, cs), st1)),
                    Result::Err(e) => Result::Err(e),
                }
            }
        },
        MdKindV::TableCell => match trans_list(n.children, st, now) {
            Result::Ok((cs, st1)) => Result::Ok((plain(ContainerKind::Td, cs), st1)),
            Result::Err(e) => Result::Err(e),
        },
        MdKindV::Text(s) => {
            let st1 = StateV {
                word_count: sat_add(st.word_count, word_count_of(s) as usize),
                ..st
            };
            match subst_emo(subst_typo(s), true) {
                Result::Ok(t) => Result::Ok((ElemV::Text { text: t }, st1)),
                Result::Err(sc) => Result::Err(TransErr::Emoticon(sc)),
            }
        },
        MdKindV::TaskItem(ch) => {
            let icon = match ch {
                Option::Some(c) => taskitem_view(c),
                Option::None => ElemV::Container {
                    kind: ContainerKind::Span,
                    attrs: seq!["class=\"fa-regular fa-square\""@],
                    children: Seq::empty(),
                },
            };
            match trans_flat(n.children, st, now) {
                Result::Ok((cs, st1)) => Result::Ok(
                    (
                        ElemV::Container {
                            kind: ContainerKind::Li,
                            attrs: seq!["class=\"task-item\""@],
                            children: seq![icon] + cs,
                        },
                        st1,
                    ),
                ),
                Result::Err(e) => Result::Err(e),
            }
        },
        MdKindV::SoftBreak => Result::Ok(
            (ElemV::Void { vkind: VoidKind::Br, attrs: Seq::empty() }, st),
        ),
        MdKindV::LineBreak => Result::Ok(
            (ElemV::Void { vkind: VoidKind::Br, attrs: Seq::empty() }, st),
        ),
        MdKindV::Code(s) => Result::Ok(
            (
                ElemV::Container {
                    kind: ContainerKind::Span,
                    attrs: seq!["class=\"inline-code\""@],
                    children: seq![ElemV::Text { text: s }],
                },
                st,
            ),
        ),
        MdKindV::HtmlInline(s) => Result::Ok((ElemV::Raw { text: s }, st)),
        MdKindV::Emph => match trans_list(n.children, st, now) {
            Result::Ok((cs, st1)) => Result::Ok((plain(ContainerKind::I, cs), st1)),
            Result::Err(e) => Result::Err(e),
        },
        MdKindV::Strong => match trans_list(n.children, st, now) {
            Result::Ok((cs, st1)) => Result::Ok((plain(ContainerKind::B, cs), st1)),
            Result::Err(e) => Result::Err(e),
        },
        MdKindV::Strikethrough => match trans_list(n.children, st, now) {
            Result::Ok((cs, st1)) => Result::Ok((plain(ContainerKind::S, cs), st1)),
            Result::Err(e) => Result::Err(e),
        },
        MdKindV::Insert => match trans_list(n.children, st, now) {
            Result::Ok((cs, st1)) => Result::Ok((plain(ContainerKind::U, cs), st1)),
            Result::Err(e) => Result::Err(e),
        },
        MdKindV::Superscript => match trans_list(n.children, st, now) {
            Result::Ok((cs, st1)) => Result::Ok((plain(ContainerKind::Sup, cs), st1)),
            Result::Err(e) => Result::Err(e),
        },
        MdKindV::Subscript => match trans_list(n.children, st, now) {
            Result::Ok((cs, st1)) => Result::Ok((plain(ContainerKind::Sub, cs), st1)),
            Result::Err(e) => Result::Err(e),
        },
        MdKindV::Highlight => match trans_list(n.children, st, now) {
            Result::Ok((cs, st1)) => Result::Ok((plain(ContainerKind::Mark, cs), st1)),
            Result::Err(e) => Result::Err(e),
        },
        MdKindV::Link(url, title) => match trans_list(n.children, st, now) {
            Result::Ok((cs, st1)) => {
                let external = match domain_of(url) {
                    Option::Some(d) => d != st1.domain,
                    Option::None => false,
                };
                let cs2 = if external {
                    cs.push(
                        ElemV::Container {
                            kind: ContainerKind::Span,
                            attrs: seq![
                                "class=\"fa-solid fa-up-right-from-square href-external\""@,
                            ],
                            children: Seq::empty(),
                        },
                    )
                } else {
                    cs
                };
                Result::Ok(
                    (
                        ElemV::Container {
                            kind: ContainerKind::A,
                            attrs: seq![
                                "href=\""@ + url + "\""@,
                                "title=\""@ + title + "\""@,
                                "target=\"_blank\""@,
                                "rel=\"noreferrer\""@,
                            ],
                            children: cs2,
                        },
                        st1,
                    ),
                )
            },
            Result::Err(e) => Result::Err(e),
        },
        MdKindV::Image(url, title) => {
            let src = "src=\""@ + url + "\""@;
            let attrs0 = seq![src];
            let attrs1 = if n.children.len() > 0 {
                match n.children[0].kind {
                    MdKindV::Text(alt) => attrs0.push("alt=\""@ + alt + "\""@),
                    _ => attrs0,
                }
            } else {
                attrs0
            };
            if title.len() > 0 {
                let attrs2 = attrs1.push("title=\""@ + title + "\""@);
                Result::Ok(
                    (
                        ElemV::Container {
                            kind: ContainerKind::Figure,
                            attrs: Seq::empty(),
                            children: seq![
                                ElemV::Void { vkind: VoidKind::Img, attrs: attrs2 },
                                ElemV::Container {
                                    kind: ContainerKind::Figcaption,
                                    attrs: Seq::empty(),
                                    children: seq![ElemV::Text { text: title }],
                                },
                            ],
                        },
                        st,
                    ),
                )
            } else {
                Result::Ok((ElemV::Void { vkind: VoidKind::Img, attrs: attrs1 }, st))
            }
        },
        MdKindV::FootnoteReference(label) => {
            let (sfx, fc2) = fc_advance_spec(st.footnote_counter, label);
            let tag = match sfx {
                Option::Some(k) => ":"@ + dec_str(k as nat),
                Option::None => ""@,
            };
            let anchor = ElemV::Container {
                kind: ContainerKind::A,
                attrs: seq![
                    "href=\"#footnote-definition-"@ + label + "\""@,
                    "id=\"footnote-reference-"@ + label + tag + "\""@,
                ],
                children: seq![ElemV::Text { text: "["@ + label + tag + "]"@ }],
            };
            Result::Ok(
                (
                    plain(ContainerKind::Sup, seq![anchor]),
                    StateV { footnote_counter: fc2, ..st },
                ),
            )
        },
        MdKindV::ShortCode(emoji) => Result::Ok(
            (plain(ContainerKind::Span, seq![ElemV::Text { text: emoji }]), st),
        ),
    }
}

/// The transduction of a list of sibling nodes, threading the accumulator
/// left to right.
pub open spec fn trans_list(s: Seq<MdV>, st: StateV, now: TimestampV) -> Result<
    (Seq<ElemV>, StateV),
    TransErr,
>
    decreases s, 1int,
{
    if s.len() == 0 {
        Result::Ok((Seq::empty(), st))
    } else {
        match trans_list(s.drop_last(), st, now) {
            Result::Ok((cs, st1)) => match trans(s.last(), st1, now) {
                Result::Ok((e, st2)) => Result::Ok((cs.push(e), st2)),
                Result::Err(er) => Result::Err(er),
            },
            Result::Err(er) => Result::Err(er),
        }
    }
}

/// The transduction of the grandchildren of a list of nodes: each node's
/// own wrapper is dropped and its children are transduced in order.
pub open spec fn trans_flat(s: Seq<MdV>, st: StateV, now: TimestampV) -> Result<
    (Seq<ElemV>, StateV),
    TransErr,
>
    decreases s, 1int,
{
    if s.len() == 0 {
        Result::Ok((Seq::empty(), st))
    } else {
        match trans_flat(s.drop_last(), st, now) {
            Result::Ok((cs, st1)) => match trans_list(s.last().children, st1, now) {
                Result::Ok((cs2, st2)) => Result::Ok((cs + cs2, st2)),
                Result::Err(er) => Result::Err(er),
            },
            Result::Err(er) => Result::Err(er),
        }
    }
}

/// The transduction of a header row's cells: each cell's children are
/// transduced and wrapped in a header cell.
pub open spec fn trans_header_cells(s: Seq<MdV>, st: StateV, now: TimestampV) -> Result<
    (Seq<ElemV>, StateV),
    TransErr,
>
    decreases s, 1int,
{
    if s.len() == 0 {
        Result::Ok((Seq::empty(), st))
    } else {
        match trans_header_cells(s.drop_last(), st, now) {
            Result::Ok((cells, st1)) => match trans_list(s.last().children, st1, now) {
                Result::Ok((cs, st2)) => Result::Ok(
                    (cells.push(plain(ContainerKind::Th, cs)), st2),
                ),
                Result::Err(er) => Result::Err(er),
            },
            Result::Err(er) => Result::Err(er),
        }
    }
}


/// How an executable transduction result must relate to the specification:
/// on success the element's model and the accumulator match; on failure the
/// matching error variant carries the same text.
pub open spec fn result_matches(
    r: Result<Element, ConvError>,
    st: StateV,
    t: Result<(ElemV, StateV), TransErr>,
) -> bool {
    match t {
        Result::Ok(pair) => r matches Result::Ok(el) && elem_view(el) == pair.0 && st == pair.1,
        Result::Err(TransErr::Emoticon(sc)) => r matches Result::Err(
            ConvError::UnknownEmoticon(s),
        ) && s@ == sc,
        Result::Err(TransErr::FrontMatter(p)) => r matches Result::Err(ConvError::FrontMatter(s))
            && s@ == p,
    }
}

/// The list form of `result_matches`.
pub open spec fn list_matches(
    r: Result<Vec<Element>, ConvError>,
    st: StateV,
    t: Result<(Seq<ElemV>, StateV), TransErr>,
) -> bool {
    match t {
        Result::Ok(pair) => r matches Result::Ok(els) && elems_view(els@) == pair.0 && st
            == pair.1,
        Result::Err(TransErr::Emoticon(sc)) => r matches Result::Err(
            ConvError::UnknownEmoticon(s),
        ) && s@ == sc,
        Result::Err(TransErr::FrontMatter(p)) => r matches Result::Err(ConvError::FrontMatter(s))
            && s@ == p,
    }
}


fn plain_meta(children: Vec<Element>) -> (m: Meta)
    ensures
        m.attrs.deep_view() == Seq::<Seq<char>>::empty(),
        m.children == children,
{
    let attrs: Vec<String> = Vec::new();
    proof {
        assert(attrs.deep_view() =~= Seq::<Seq<char>>::empty());
    }
    Meta { attrs, children }
}

fn cat3(a: &str, b: &str, c: &str) -> (r: String)
    ensures
        r@ == a@ + b@ + c@,
{
    let mut r = String::from_str(a);
    r.append(b);
    r.append(c);
    r
}

fn iter_span(
    children: &Vec<MdNode>,
    a: usize,
    k: usize,
    state: &mut State,
    now: &Timestamp,
) -> (r: Result<Vec<Element>, ConvError>)
    requires
        a <= k,
        k <= children@.len(),
        md_wf_list(mds_view(children@)),
    ensures
        list_matches(
            r,
            final(state)@,
            trans_list(
                mds_view(children@.subrange(a as int, k as int)),
                old(state)@,
                now@,
            ),
        ),
        crate::state::state_extends(final(state)@, old(state)@),
    decreases children@, 1int, k,
{
    if k <= a {
        let els: Vec<Element> = Vec::new();
        proof {
            assert(children@.subrange(a as int, a as int).len() == 0);
            assert(mds_view(children@.subrange(a as int, k as int)).len() == 0);
            assert(elems_view(els@) =~= Seq::<ElemV>::empty());
            crate::state::lemma_extends_refl(state@);
        }
        Result::Ok(els)
    } else {
        let ghost sub = children@.subrange(a as int, k as int);
        proof {
            assert(sub.drop_last() =~= children@.subrange(a as int, k - 1));
            assert(sub.last() == children@[k - 1]);
            assert(mds_view(sub) == mds_view(children@.subrange(a as int, k - 1)).push(
                md_view(children@[k - 1]),
            ));
            assert(mds_view(sub).drop_last() =~= mds_view(children@.subrange(a as int, k - 1)));
            lemma_mds_view_len(children@.subrange(a as int, k - 1));
            assert(mds_view(sub).last() == md_view(children@[k - 1]));
        }
        match iter_span(children, a, k - 1, state, now) {
            Result::Err(e) => Result::Err(e),
            Result::Ok(mut els) => {
                let ghost stm = state@;
                proof {
                    assert(decreases_to!(children@ => children@[k - 1 as int]));
                    lemma_mds_view_index(children@, k - 1);
                    lemma_md_wf_index(mds_view(children@), k - 1);
                }
                match iter_nodes(&children[k - 1], state, now) {
                    Result::Err(e) => {
                        proof {
                            crate::state::lemma_extends_trans(state@, stm, old(state)@);
                        }
                        Result::Err(e)
                    },
                    Result::Ok(el) => {
                        let ghost els0 = els@;
                        els.push(el);
                        proof {
                            assert(els@.drop_last() =~= els0);
                            assert(elems_view(els@) == elems_view(els0).push(
                                elem_view(els@.last()),
                            ));
                            crate::state::lemma_extends_trans(state@, stm, old(state)@);
                        }
                        Result::Ok(els)
                    },
                }
            },
        }
    }
}

fn iter_flat_to(children: &Vec<MdNode>, k: usize, state: &mut State, now: &Timestamp) -> (r:
    Result<Vec<Element>, ConvError>)
    requires
        k <= children@.len(),
        md_wf_list(mds_view(children@)),
    ensures
        list_matches(
            r,
            final(state)@,
            trans_flat(mds_view(children@.subrange(0, k as int)), old(state)@, now@),
        ),
        crate::state::state_extends(final(state)@, old(state)@),
    decreases children@, 1int, k,
{
    if k == 0 {
        let els: Vec<Element> = Vec::new();
        proof {
            assert(mds_view(children@.subrange(0, 0)).len() == 0);
            assert(elems_view(els@) =~= Seq::<ElemV>::empty());
            crate::state::lemma_extends_refl(state@);
        }
        Result::Ok(els)
    } else {
        let ghost sub = children@.subrange(0, k as int);
        proof {
            assert(sub.drop_last() =~= children@.subrange(0, k - 1));
            assert(sub.last() == children@[k - 1]);
            assert(mds_view(sub) == mds_view(children@.subrange(0, k - 1)).push(
                md_view(children@[k - 1]),
            ));
            assert(mds_view(sub).drop_last() =~= mds_view(children@.subrange(0, k - 1)));
            lemma_mds_view_len(children@.subrange(0, k - 1));
            assert(mds_view(sub).last() == md_view(children@[k - 1]));
        }
        match iter_flat_to(children, k - 1, state, now) {
            Result::Err(e) => Result::Err(e),
            Result::Ok(mut els) => {
                let ghost stm = state@;
                let item = &children[k - 1];
                proof {
                    assert(decreases_to!(children@ => children@[k - 1 as int]));
                    assert(decreases_to!(children@[k - 1 as int] => item.children@));
                    lemma_mds_view_index(children@, k - 1);
                    lemma_md_wf_index(mds_view(children@), k - 1);
                    assert(md_view(children@[k - 1]).children == mds_view(item.children@));
                }
                let cl = item.children.len();
                match iter_span(&item.children, 0, cl, state, now) {
                    Result::Err(e) => {
                        proof {
                            assert(item.children@.subrange(0, cl as int) =~= item.children@);
                            crate::state::lemma_extends_trans(state@, stm, old(state)@);
                        }
                        Result::Err(e)
                    },
                    Result::Ok(mut cs2) => {
                        let ghost els0 = els@;
                        let ghost cs2v = cs2@;
                        els.append(&mut cs2);
                        proof {
                            assert(item.children@.subrange(0, cl as int) =~= item.children@);
                            assert(els@ == els0 + cs2v);
                            crate::html::lemma_elems_view_concat(els0, cs2v);
                            crate::state::lemma_extends_trans(state@, stm, old(state)@);
                        }
                        Result::Ok(els)
                    },
                }
            },
        }
    }
}

fn iter_cells_to(children: &Vec<MdNode>, k: usize, state: &mut State, now: &Timestamp) -> (r:
    Result<Vec<Element>, ConvError>)
    requires
        k <= children@.len(),
        md_wf_list(mds_view(children@)),
    ensures
        list_matches(
            r,
            final(state)@,
            trans_header_cells(mds_view(children@.subrange(0, k as int)), old(state)@, now@),
        ),
        crate::state::state_extends(final(state)@, old(state)@),
    decreases children@, 1int, k,
{
    if k == 0 {
        let els: Vec<Element> = Vec::new();
        proof {
            assert(mds_view(children@.subrange(0, 0)).len() == 0);
            assert(elems_view(els@) =~= Seq::<ElemV>::empty());
            crate::state::lemma_extends_refl(state@);
        }
        Result::Ok(els)
    } else {
        let ghost sub = children@.subrange(0, k as int);
        proof {
            assert(sub.drop_last() =~= children@.subrange(0, k - 1));
            assert(sub.last() == children@[k - 1]);
            assert(mds_view(sub) == mds_view(children@.subrange(0, k - 1)).push(
                md_view(children@[k - 1]),
            ));
            assert(mds_view(sub).drop_last() =~= mds_view(children@.subrange(0, k - 1)));
            lemma_mds_view_len(children@.subrange(0, k - 1));
            assert(mds_view(sub).last() == md_view(children@[k - 1]));
        }
        match iter_cells_to(children, k - 1, state, now) {
            Result::Err(e) => Result::Err(e),
            Result::Ok(mut els) => {
                let ghost stm = state@;
                let cell = &children[k - 1];
                proof {
                    assert(decreases_to!(children@ => children@[k - 1 as int]));
                    assert(decreases_to!(children@[k - 1 as int] => cell.children@));
                    lemma_mds_view_index(children@, k - 1);
                    lemma_md_wf_index(mds_view(children@), k - 1);
                    assert(md_view(children@[k - 1]).children == mds_view(cell.children@));
                }
                let cl = cell.children.len();
                match iter_span(&cell.children, 0, cl, state, now) {
                    Result::Err(e) => {
                        proof {
                            assert(cell.children@.subrange(0, cl as int) =~= cell.children@);
                            crate::state::lemma_extends_trans(state@, stm, old(state)@);
                        }
                        Result::Err(e)
                    },
                    Result::Ok(cs2) => {
                        let th = Element::Container(
                            ContainerKind::Th,
                            plain_meta(cs2),
                        );
                        let ghost els0 = els@;
                        let ghost thv = elem_view(th);
                        els.push(th);
                        proof {
                            assert(cell.children@.subrange(0, cl as int) =~= cell.children@);
                            assert(els@.drop_last() =~= els0);
                            assert(elems_view(els@) == elems_view(els0).push(
                                elem_view(els@.last()),
                            ));
                            crate::state::lemma_extends_trans(state@, stm, old(state)@);
                        }
                        Result::Ok(els)
                    },
                }
            },
        }
    }
}

/// Transduce one input node, mutating the accumulator, and give back the
/// output node.  The result and the accumulator are exactly what `trans`
/// says; an error aborts the whole conversion.  On every path, aborted or
/// not, only the accumulator moves, and it only extends: the domain is
/// untouched, counters never decrease, and the collected lists only grow.
#[verifier::rlimit(100)]
#[verifier::spinoff_prover]
pub fn iter_nodes(node: &MdNode, state: &mut State, now: &Timestamp) -> (r: Result<
    Element,
    ConvError,
>)
    requires
        md_wf(md_view(*node)),
    ensures
        result_matches(r, final(state)@, trans(md_view(*node), old(state)@, now@)),
        crate::state::state_extends(final(state)@, old(state)@),
    decreases *node, 2int, 0int,
{
    proof {
        assert(decreases_to!(*node => node.children@));
    }
    let nlen = node.children.len();
    proof {
        assert(node.children@.subrange(0, nlen as int) =~= node.children@);
    }
    let ghost st0 = state@;
    match &node.kind {
        MdKind::Document => iter_wrap(ContainerKind::Section, node, nlen, state, now),
        MdKind::FrontMatter(payload) => {
            match parse_front_matter(payload.as_str()) {
                Result::Ok(fmv) => {
                    let ghost fmvv = fmv@;
                    state.front_matter = Option::Some(fmv);
                    state.date = Timestamp {
                        date_line: now.date_line.clone(),
                        stamp: now.stamp.clone(),
                    };
                    proof {
                        assert(state@ =~= StateV {
                            front_matter: Option::Some(fmvv),
                            date: now@,
                            ..st0
                        });
                        crate::state::lemma_extends_counters(state@, st0);
                    }
                    Result::Ok(Element::Empty)
                },
                Result::Err(e) => {
                    proof {
                        crate::state::lemma_extends_refl(state@);
                    }
                    Result::Err(e)
                },
            }
        },
        MdKind::BlockQuote => iter_wrap(ContainerKind::Blockquote, node, nlen, state, now),
        MdKind::List(ordered) => {
            let kind = if *ordered {
                ContainerKind::Ol
            } else {
                ContainerKind::Ul
            };
            iter_wrap(kind, node, nlen, state, now)
        },
        MdKind::Item => iter_wrap(ContainerKind::Li, node, nlen, state, now),
        MdKind::DescriptionList => {
            match iter_flat_to(&node.children, nlen, state, now) {
                Result::Err(e) => Result::Err(e),
                Result::Ok(cs) => {
                    let r = Element::Container(
                        ContainerKind::Dl,
                        plain_meta(cs),
                    );
                    proof {
                        assert(node.children@.subrange(0, nlen as int) =~= node.children@);
                    }
                    Result::Ok(r)
                },
            }
        },
        MdKind::DescriptionItem => {
            proof {
                crate::state::lemma_extends_refl(state@);
            }
            Result::Ok(Element::Empty)
        },
        MdKind::DescriptionTerm => iter_wrap(ContainerKind::Dt, node, nlen, state, now),
        MdKind::DescriptionDetails => iter_wrap(ContainerKind::Dd, node, nlen, state, now),
        MdKind::CodeBlock(el) => {
            proof {
                crate::state::lemma_extends_refl(state@);
            }
            Result::Ok(crate::html::clone_element(el))
        },
        MdKind::HtmlBlock(s) => {
            proof {
                crate::state::lemma_extends_refl(state@);
            }
            Result::Ok(Element::Raw(s.clone()))
        },
        MdKind::Paragraph => iter_wrap(ContainerKind::P, node, nlen, state, now),
        MdKind::Heading(level) => iter_heading(node, *level, nlen, state, now),
        MdKind::ThematicBreak => {
            proof {
                crate::state::lemma_extends_refl(state@);
            }
            Result::Ok(Element::Void(VoidKind::Hr, plain_meta(Vec::new())))
        },
        MdKind::FootnoteDefinition(label) => {
            match iter_span(&node.children, 0, nlen, state, now) {
                Result::Err(e) => Result::Err(e),
                Result::Ok(cs) => {
                    let ghost st1 = state@;
                    proof {
                        assert(node.children@.subrange(0, nlen as int) =~= node.children@);
                    }
                    let ghost csv = elems_view(cs@);
                    state.definitions.push((label.clone(), cs));
                    proof {
                        assert(crate::state::defs_view(state.definitions@) =~= st1.definitions.push(
                            (label@, csv),
                        ));
                        assert(state@ =~= StateV {
                            definitions: st1.definitions.push((label@, csv)),
                            ..st1
                        });
                        crate::state::lemma_prefix_push(st1.definitions, (label@, csv));
                        crate::state::lemma_prefix_refl(st1.styles);
                        crate::state::lemma_prefix_refl(st1.headings);
                        assert(crate::state::state_extends(state@, st1));
                        crate::state::lemma_extends_trans(state@, st1, old(state)@);
                    }
                    Result::Ok(Element::Empty)
                },
            }
        },
        MdKind::Table(aligns) => iter_table(node, aligns, nlen, state, now),
        MdKind::TableRow(header) => {
            if *header {
                match iter_cells_to(&node.children, nlen, state, now) {
                    Result::Err(e) => Result::Err(e),
                    Result::Ok(cells) => {
                        let r = Element::Container(
                            ContainerKind::Tr,
                            plain_meta(cells),
                        );
                        proof {
                            assert(node.children@.subrange(0, nlen as int) =~= node.children@);
                        }
                        Result::Ok(r)
                    },
                }
            } else {
                iter_wrap(ContainerKind::Tr, node, nlen, state, now)
            }
        },
        MdKind::TableCell => iter_wrap(ContainerKind::Td, node, nlen, state, now),
        MdKind::Text(s) => iter_text(s, state),
        MdKind::TaskItem(ch) => iter_taskitem(node, *ch, nlen, state, now),
        MdKind::SoftBreak => {
            proof {
                crate::state::lemma_extends_refl(state@);
            }
            Result::Ok(Element::Void(VoidKind::Br, plain_meta(Vec::new())))
        },
        MdKind::LineBreak => {
            proof {
                crate::state::lemma_extends_refl(state@);
            }
            Result::Ok(Element::Void(VoidKind::Br, plain_meta(Vec::new())))
        },
        MdKind::Code(s) => {
            let cattrs = vec![String::from_str("class=\"inline-code\"")];
            let ckids = vec![Element::Text(s.clone())];
            proof {
                assert(cattrs.deep_view() =~= seq!["class=\"inline-code\""@]);
                crate::html::lemma_elems_view_one(ckids@);
            }
            let r = Element::Container(ContainerKind::Span, Meta { attrs: cattrs, children: ckids });
            proof {
                crate::state::lemma_extends_refl(state@);
            }
            Result::Ok(r)
        },
        MdKind::HtmlInline(s) => {
            proof {
                crate::state::lemma_extends_refl(state@);
            }
            Result::Ok(Element::Raw(s.clone()))
        },
        MdKind::Emph => iter_wrap(ContainerKind::I, node, nlen, state, now),
        MdKind::Strong => iter_wrap(ContainerKind::B, node, nlen, state, now),
        MdKind::Strikethrough => iter_wrap(ContainerKind::S, node, nlen, state, now),
        MdKind::Insert => iter_wrap(ContainerKind::U, node, nlen, state, now),
        MdKind::Superscript => iter_wrap(ContainerKind::Sup, node, nlen, state, now),
        MdKind::Subscript => iter_wrap(ContainerKind::Sub, node, nlen, state, now),
        MdKind::Highlight => iter_wrap(ContainerKind::Mark, node, nlen, state, now),
        MdKind::Link(url, title) => iter_link(node, url, title, nlen, state, now),
        MdKind::Image(url, title) => iter_image(node, url, title, state, now),
        MdKind::FootnoteReference(label) => iter_footref(node, label, state, now),
        MdKind::ShortCode(emoji) => {
            let kids = vec![Element::Text(emoji.clone())];
            proof {
                crate::html::lemma_elems_view_one(kids@);
            }
            let r = Element::Container(ContainerKind::Span, plain_meta(kids));
            proof {
                crate::state::lemma_extends_refl(state@);
            }
            Result::Ok(r)
        },
    }
}

fn iter_wrap(
    kind: ContainerKind,
    node: &MdNode,
    nlen: usize,
    state: &mut State,
    now: &Timestamp,
) -> (r: Result<Element, ConvError>)
    requires
        nlen == node.children@.len(),
        md_wf(md_view(*node)),
    ensures
        ({
            let t = trans_list(mds_view(node.children@), old(state)@, now@);
            match t {
                Result::Ok(pair) => r matches Result::Ok(el) && elem_view(el) == plain(
                    kind,
                    pair.0,
                ) && final(state)@ == pair.1,
                Result::Err(TransErr::Emoticon(sc)) => r matches Result::Err(
                    ConvError::UnknownEmoticon(s),
                ) && s@ == sc,
                Result::Err(TransErr::FrontMatter(p)) => r matches Result::Err(
                    ConvError::FrontMatter(s),
                ) && s@ == p,
            }
        }),
        crate::state::state_extends(final(state)@, old(state)@),
    decreases *node, 1int, 0int,
{
    proof {
        assert(decreases_to!(*node => node.children@));
        assert(node.children@.subrange(0, nlen as int) =~= node.children@);
    }
    match iter_span(&node.children, 0, nlen, state, now) {
        Result::Err(e) => Result::Err(e),
        Result::Ok(cs) => {
            let ghost csv = elems_view(cs@);
            let r = Element::Container(kind, plain_meta(cs));
            proof {
                assert(node.children@.subrange(0, nlen as int) =~= node.children@);
                assert(elem_view(r) =~= plain(kind, csv));
            }
            Result::Ok(r)
        },
    }
}


fn iter_heading(node: &MdNode, level: u8, nlen: usize, state: &mut State, now: &Timestamp) -> (r: Result<Element, ConvError>)
    requires
        nlen == node.children@.len(),
        node.kind matches MdKind::Heading(l) && l == level,
        md_wf(md_view(*node)),
    ensures
        result_matches(r, final(state)@, trans(md_view(*node), old(state)@, now@)),
        crate::state::state_extends(final(state)@, old(state)@),
    decreases *node, 1int, 0int,
{
    proof {
        assert(decreases_to!(*node => node.children@));
    }
    proof {
        assert(node.children@.subrange(0, nlen as int) =~= node.children@);
    }
    let ghost st0 = state@;
    match iter_span(&node.children, 0, nlen, state, now) {
        Result::Err(e) => Result::Err(e),
        Result::Ok(mut cs) => {
            let ghost st1 = state@;
            proof {
                assert(node.children@.subrange(0, nlen as int) =~= node.children@);
            }
            let (id, title) = heading_to_slug(&cs);
            let ghost idv = id@;
            let ghost titlev = title@;
            let href = cat3("href=\"#heading__", id.as_str(), "\"");
            let aattrs = vec![href, String::from_str("class=\"section-logo\"")];
            let achildren = vec![Element::Raw(String::from_str("&sect;"))];
            proof {
                assert(aattrs.deep_view() =~= seq![
                    "href=\"#heading__"@ + idv + "\""@,
                    "class=\"section-logo\""@,
                ]);
                crate::html::lemma_elems_view_one(achildren@);
            }
            let anchor = Element::Container(
                ContainerKind::A,
                Meta { attrs: aattrs, children: achildren },
            );
            let ghost anchorv = elem_view(anchor);
            let ghost csv = elems_view(cs@);
            let ghost cs0 = cs@;
            cs.push(anchor);
            proof {
                assert(cs@.drop_last() =~= cs0);
                assert(elems_view(cs@) == elems_view(cs0).push(elem_view(cs@.last())));
            }
            let idattr = cat3("id=\"heading__", id.as_str(), "\"");
            let lvl = level;
            let kind = if lvl == 1 {
                ContainerKind::H1
            } else if lvl == 2 {
                ContainerKind::H2
            } else if lvl == 3 {
                ContainerKind::H3
            } else if lvl == 4 {
                ContainerKind::H4
            } else if lvl == 5 {
                ContainerKind::H5
            } else {
                ContainerKind::H6
            };
            let ghost hs0 = state.headings.deep_view();
            state.headings.push((lvl, id.clone(), title.clone()));
            proof {
                assert(state.headings.deep_view() =~= hs0.push((lvl, idv, titlev)));
                assert(state@ =~= StateV { headings: st1.headings.push((lvl, idv, titlev)), ..st1 });
                crate::state::lemma_prefix_push(st1.headings, (lvl, idv, titlev));
                crate::state::lemma_prefix_refl(st1.styles);
                crate::state::lemma_prefix_refl(st1.definitions);
                assert(crate::state::state_extends(state@, st1));
                crate::state::lemma_extends_trans(state@, st1, old(state)@);
            }
            let attrs = vec![idattr];
            proof {
                assert(attrs.deep_view() =~= seq![
                    "id=\"heading__"@ + slug_chars(htext_list(csv)) + "\""@,
                ]);
                assert(anchorv =~= ElemV::Container {
                    kind: ContainerKind::A,
                    attrs: seq![
                        "href=\"#heading__"@ + slug_chars(htext_list(csv)) + "\""@,
                        "class=\"section-logo\""@,
                    ],
                    children: seq![ElemV::Raw { text: "&sect;"@ }],
                });
            }
            let r = Element::Container(kind, Meta { attrs, children: cs });
            Result::Ok(r)
        },
    }
        }


fn iter_table(node: &MdNode, aligns: &Vec<Alignment>, nlen: usize, state: &mut State, now: &Timestamp) -> (r: Result<Element, ConvError>)
    requires
        nlen == node.children@.len(),
        node.kind matches MdKind::Table(a) && a == aligns,
        md_wf(md_view(*node)),
    ensures
        result_matches(r, final(state)@, trans(md_view(*node), old(state)@, now@)),
        crate::state::state_extends(final(state)@, old(state)@),
    decreases *node, 1int, 0int,
{
    proof {
        assert(decreases_to!(*node => node.children@));
    }

    proof {
        assert(node.children@.subrange(0, nlen as int) =~= node.children@);
    }
    let ghost st0 = state@;
    let c = if state.table_counter == usize::MAX {
        state.table_counter
    } else {
        state.table_counter + 1
    };
    state.table_counter = c;
    let an = aligns.len();
    let mut ci: usize = 0;
    let ghost sty0 = st0.styles;
    proof {
        assert(sty0 + table_rules(aligns@, c).subrange(0, 0) =~= sty0);
        assert(state@ =~= StateV {
            table_counter: c,
            styles: sty0 + table_rules(aligns@, c).subrange(0, 0),
            ..st0
        });
    }
    while ci < an
        invariant
            ci <= an,
            an == aligns@.len(),
            state@ == (StateV {
                table_counter: c,
                styles: sty0 + table_rules(aligns@, c).subrange(0, ci as int),
                ..st0
            }),
        decreases an - ci,
    {
        let ghost styp = state.styles.deep_view();
        let rule = table_rule_x(c, ci + 1, aligns[ci]);
        state.styles.push(rule);
        ci = ci + 1;
        proof {
            assert(state.styles.deep_view() =~= styp.push(
                table_rule(c, ci as nat, aligns@[ci - 1]),
            ));
            assert(table_rules(aligns@, c).subrange(0, ci as int) =~= table_rules(
                aligns@,
                c,
            ).subrange(0, ci - 1).push(table_rule(c, ci as nat, aligns@[ci - 1])));
            assert(state.styles.deep_view() =~= sty0 + table_rules(aligns@, c).subrange(
                0,
                ci as int,
            ));
            assert(state@ =~= StateV {
                table_counter: c,
                styles: sty0 + table_rules(aligns@, c).subrange(0, ci as int),
                ..st0
            });
        }
    }
    proof {
        assert(table_rules(aligns@, c).subrange(0, an as int) =~= table_rules(aligns@, c));
        assert(state@ =~= StateV {
            table_counter: c,
            styles: sty0 + table_rules(aligns@, c),
            ..st0
        });
        crate::state::lemma_prefix_concat(sty0, table_rules(aligns@, c));
        crate::state::lemma_prefix_refl(st0.definitions);
        crate::state::lemma_prefix_refl(st0.headings);
        assert(crate::state::state_extends(state@, st0));
        lemma_mds_view_index(node.children@, 0);
        lemma_md_wf_index(mds_view(node.children@), 0);
    }
    let ghost stage1 = state@;
    match iter_nodes(&node.children[0], state, now) {
        Result::Err(e) => {
            proof {
                crate::state::lemma_extends_trans(state@, stage1, st0);
            }
            Result::Err(e)
        },
        Result::Ok(hr) => {
            let ghost sth = state@;
            proof {
                crate::state::lemma_extends_trans(sth, stage1, st0);
            }
            match iter_span(&node.children, 1, nlen, state, now) {
                Result::Err(e) => {
                    proof {
                        assert(node.children@.subrange(1, nlen as int)
                            =~= node.children@.drop_first());
                        lemma_mds_view_drop_first(node.children@);
                        crate::state::lemma_extends_trans(state@, sth, st0);
                    }
                    Result::Err(e)
                },
                Result::Ok(rows) => {
                    proof {
                        assert(node.children@.subrange(1, nlen as int)
                            =~= node.children@.drop_first());
                        lemma_mds_view_drop_first(node.children@);
                        crate::state::lemma_extends_trans(state@, sth, st0);
                    }
                    let classattr = cat3(
                        "class=\"table-",
                        usize_to_string(c).as_str(),
                        "\"",
                    );
                    let ghost hrv = elem_view(hr);
                    let theadkids = vec![hr];
                    proof {
                        crate::html::lemma_elems_view_one(theadkids@);
                    }
                    let thead = Element::Container(
                        ContainerKind::Thead,
                        plain_meta(theadkids),
                    );
                    let tbody = Element::Container(
                        ContainerKind::Tbody,
                        plain_meta(rows),
                    );
                    let ghost theadv = elem_view(thead);
                    let ghost tbodyv = elem_view(tbody);
                    let tattrs = vec![classattr];
                    let tkids = vec![thead, tbody];
                    proof {
                        assert(tattrs.deep_view() =~= seq![
                            "class=\"table-"@ + dec_str(c as nat) + "\""@,
                        ]);
                        crate::html::lemma_elems_view_two(tkids@);
                    }
                    let r = Element::Container(
                        ContainerKind::Table,
                        Meta { attrs: tattrs, children: tkids },
                    );
                    proof {
                        assert(elem_view(r) =~= ElemV::Container {
                            kind: ContainerKind::Table,
                            attrs: seq!["class=\"table-"@ + dec_str(c as nat) + "\""@],
                            children: seq![theadv, tbodyv],
                        });
                    }
                    Result::Ok(r)
                },
            }
        },
    }
        }


fn iter_text(s: &String, state: &mut State) -> (r: Result<Element, ConvError>)
    ensures
        ({
            let st1 = StateV {
                word_count: sat_add(old(state)@.word_count, word_count_of(s@) as usize),
                ..old(state)@
            };
            match subst_emo(subst_typo(s@), true) {
                Result::Ok(t) => r matches Result::Ok(el) && elem_view(el) == (ElemV::Text {
                    text: t,
                }) && final(state)@ == st1,
                Result::Err(sc) => r matches Result::Err(ConvError::UnknownEmoticon(x)) && x@
                    == sc,
            }
        }),
        crate::state::state_extends(final(state)@, old(state)@),
{
    let ghost st0 = state@;
    let words = count_words(s.as_str());
    let wc = if words > usize::MAX - state.word_count {
        usize::MAX
    } else {
        state.word_count + words
    };
    state.word_count = wc;
    proof {
        assert(wc == sat_add(st0.word_count, word_count_of(s@) as usize));
        assert(state@ =~= StateV { word_count: wc, ..st0 });
        crate::state::lemma_extends_counters(state@, st0);
    }
    let typo = replace_typographer(s.as_str());
    match replace_emoticons(typo.as_str()) {
        Result::Ok(t) => Result::Ok(Element::Text(t)),
        Result::Err(e) => Result::Err(e),
    }
        }


fn iter_taskitem(node: &MdNode, ch: Option<char>, nlen: usize, state: &mut State, now: &Timestamp) -> (r: Result<Element, ConvError>)
    requires
        nlen == node.children@.len(),
        node.kind matches MdKind::TaskItem(c) && c == ch,
        md_wf(md_view(*node)),
    ensures
        result_matches(r, final(state)@, trans(md_view(*node), old(state)@, now@)),
        crate::state::state_extends(final(state)@, old(state)@),
    decreases *node, 1int, 0int,
{
    proof {
        assert(decreases_to!(*node => node.children@));
    }

    proof {
        assert(node.children@.subrange(0, nlen as int) =~= node.children@);
    }
    let ghost st0 = state@;
    let icon = match ch {
        Option::Some(c) => char_to_taskitem(c),
        Option::None => {
            let iattrs = vec![String::from_str("class=\"fa-regular fa-square\"")];
            proof {
                assert(iattrs.deep_view() =~= seq!["class=\"fa-regular fa-square\""@]);
            }
            let ikids: Vec<Element> = Vec::new();
            proof {
                assert(elems_view(ikids@) =~= Seq::<ElemV>::empty());
            }
            let r = Element::Container(
                ContainerKind::Span,
                Meta { attrs: iattrs, children: ikids },
            );
            proof {
                assert(elem_view(r) =~= ElemV::Container {
                    kind: ContainerKind::Span,
                    attrs: seq!["class=\"fa-regular fa-square\""@],
                    children: Seq::empty(),
                });
            }
            r
        },
    };
    let ghost iconv = elem_view(icon);
    match iter_flat_to(&node.children, nlen, state, now) {
        Result::Err(e) => Result::Err(e),
        Result::Ok(cs) => {
            proof {
                assert(node.children@.subrange(0, nlen as int) =~= node.children@);
            }
            let mut all: Vec<Element> = Vec::new();
            all.push(icon);
            proof {
                crate::html::lemma_elems_view_one(all@);
                assert(elems_view(all@) =~= seq![iconv]);
            }
            let mut cs2 = cs;
            let ghost all0 = all@;
            let ghost cs2v = cs2@;
            all.append(&mut cs2);
            proof {
                assert(all@ == all0 + cs2v);
                crate::html::lemma_elems_view_concat(all0, cs2v);
                assert(elems_view(all@) =~= seq![iconv] + elems_view(cs2v));
            }
            let attrs = vec![String::from_str("class=\"task-item\"")];
            proof {
                assert(attrs.deep_view() =~= seq!["class=\"task-item\""@]);
            }
            let r = Element::Container(
                ContainerKind::Li,
                Meta { attrs, children: all },
            );
            Result::Ok(r)
        },
    }
        }


fn iter_link(node: &MdNode, url: &String, title: &String, nlen: usize, state: &mut State, now: &Timestamp) -> (r: Result<Element, ConvError>)
    requires
        nlen == node.children@.len(),
        node.kind matches MdKind::Link(u, t) && u == url && t == title,
        md_wf(md_view(*node)),
    ensures
        result_matches(r, final(state)@, trans(md_view(*node), old(state)@, now@)),
        crate::state::state_extends(final(state)@, old(state)@),
    decreases *node, 1int, 0int,
{
    proof {
        assert(decreases_to!(*node => node.children@));
    }

    proof {
        assert(node.children@.subrange(0, nlen as int) =~= node.children@);
    }
    let ghost st0 = state@;
    match iter_span(&node.children, 0, nlen, state, now) {
        Result::Err(e) => Result::Err(e),
        Result::Ok(mut cs) => {
            proof {
                assert(node.children@.subrange(0, nlen as int) =~= node.children@);
            }
            let external = match url_domain(url.as_str()) {
                Option::Some(d) => !(d == state.domain),
                Option::None => false,
            };
            let ghost cs0 = cs@;
            if external {
                let mattrs = vec![
                    String::from_str(
                        "class=\"fa-solid fa-up-right-from-square href-external\"",
                    ),
                ];
                proof {
                    assert(mattrs.deep_view() =~= seq![
                        "class=\"fa-solid fa-up-right-from-square href-external\""@,
                    ]);
                }
                let mkids: Vec<Element> = Vec::new();
                proof {
                    assert(elems_view(mkids@) =~= Seq::<ElemV>::empty());
                }
                let marker = Element::Container(
                    ContainerKind::Span,
                    Meta { attrs: mattrs, children: mkids },
                );
                proof {
                    assert(elem_view(marker) =~= ElemV::Container {
                        kind: ContainerKind::Span,
                        attrs: seq![
                            "class=\"fa-solid fa-up-right-from-square href-external\""@,
                        ],
                        children: Seq::empty(),
                    });
                }
                cs.push(marker);
                proof {
                    assert(cs@.drop_last() =~= cs0);
                    assert(elems_view(cs@) == elems_view(cs0).push(
                        elem_view(cs@.last()),
                    ));
                }
            }
            let href = cat3("href=\"", url.as_str(), "\"");
            let titleattr = cat3("title=\"", title.as_str(), "\"");
            let attrs = vec![
                href,
                titleattr,
                String::from_str("target=\"_blank\""),
                String::from_str("rel=\"noreferrer\""),
            ];
            proof {
                assert(attrs.deep_view() =~= seq![
                    "href=\""@ + url@ + "\""@,
                    "title=\""@ + title@ + "\""@,
                    "target=\"_blank\""@,
                    "rel=\"noreferrer\""@,
                ]);
            }
            let r = Element::Container(ContainerKind::A, Meta { attrs, children: cs });
            Result::Ok(r)
        },
    }
        }


fn iter_image(node: &MdNode, url: &String, title: &String, state: &mut State, now: &Timestamp) -> (r: Result<Element, ConvError>)
    requires

        node.kind matches MdKind::Image(u, t) && u == url && t == title,
        md_wf(md_view(*node)),
    ensures
        result_matches(r, final(state)@, trans(md_view(*node), old(state)@, now@)),
        crate::state::state_extends(final(state)@, old(state)@),
    decreases *node, 1int, 0int,
{
    proof {
        assert(decreases_to!(*node => node.children@));
    }
    let nlen = node.children.len();
    proof {
        assert(node.children@.subrange(0, nlen as int) =~= node.children@);
    }
    let ghost st0 = state@;
    proof {
        crate::state::lemma_extends_refl(state@);
    }
    let mut attrs: Vec<String> = Vec::new();
    attrs.push(cat3("src=\"", url.as_str(), "\""));
    proof {
        assert(attrs.deep_view() =~= seq!["src=\""@ + url@ + "\""@]);
        if node.children@.len() > 0 {
            lemma_mds_view_index(node.children@, 0);
        }
    }
    if node.children.len() > 0 {
        match &node.children[0].kind {
            MdKind::Text(alt) => {
                let ghost at0 = attrs.deep_view();
                attrs.push(cat3("alt=\"", alt.as_str(), "\""));
                proof {
                    assert(attrs.deep_view() =~= at0.push("alt=\""@ + alt@ + "\""@));
                }
            },
            _ => {},
        }
    }
    if !title.as_str().is_empty() {
        let ghost at1 = attrs.deep_view();
        attrs.push(cat3("title=\"", title.as_str(), "\""));
        proof {
            assert(attrs.deep_view() =~= at1.push("title=\""@ + title@ + "\""@));
        }
        let img = Element::Void(VoidKind::Img, Meta { attrs, children: Vec::new() });
        proof {
            assert(elem_view(img) == (ElemV::Void { vkind: VoidKind::Img, attrs: at1.push("title=\""@ + title@ + "\""@) }));
        }
        let capkids = vec![Element::Text(title.clone())];
        proof {
            crate::html::lemma_elems_view_one(capkids@);
        }
        let caption = Element::Container(ContainerKind::Figcaption, plain_meta(capkids));
        let ghost imgv = elem_view(img);
        let ghost capv = elem_view(caption);
        let figkids = vec![img, caption];
        proof {
            crate::html::lemma_elems_view_two(figkids@);
        }
        let r = Element::Container(ContainerKind::Figure, plain_meta(figkids));
        proof {
            assert(elem_view(r) =~= ElemV::Container {
                kind: ContainerKind::Figure,
                attrs: Seq::empty(),
                children: seq![imgv, capv],
            });
        }
        Result::Ok(r)
    } else {
        let r = Element::Void(VoidKind::Img, Meta { attrs, children: Vec::new() });
        Result::Ok(r)
    }
        }


fn iter_footref(node: &MdNode, label: &String, state: &mut State, now: &Timestamp) -> (r: Result<Element, ConvError>)
    requires

        node.kind matches MdKind::FootnoteReference(x) && x == label,
        md_wf(md_view(*node)),
    ensures
        result_matches(r, final(state)@, trans(md_view(*node), old(state)@, now@)),
        crate::state::state_extends(final(state)@, old(state)@),
    decreases *node, 1int, 0int,
{
    proof {
        assert(decreases_to!(*node => node.children@));
    }
    let nlen = node.children.len();
    proof {
        assert(node.children@.subrange(0, nlen as int) =~= node.children@);
    }
    let ghost st0 = state@;
    let sfx = fc_advance(&mut state.footnote_counter, label);
    let tag = match sfx {
        Option::Some(k) => {
            let mut t = String::from_str(":");
            t.append(usize_to_string(k).as_str());
            t
        },
        Option::None => String::new(),
    };
    let ghost tagv = tag@;
    proof {
        match sfx {
            Option::Some(k) => {
                assert(tagv == ":"@ + dec_str(k as nat));
            },
            Option::None => {
                reveal_strlit("");
                assert(tagv =~= ""@);
            },
        }
    }
    proof {
        assert(state@ =~= StateV {
            footnote_counter: state.footnote_counter.deep_view(),
            ..st0
        });
        match fc_lookup(st0.footnote_counter, label@) {
            Option::Some(_) => {
                crate::state::lemma_fc_bump_len(st0.footnote_counter, label@);
            },
            Option::None => {},
        }
        crate::state::lemma_extends_counters(state@, st0);
    }
    let href = cat3("href=\"#footnote-definition-", label.as_str(), "\"");
    let mut idattr = String::from_str("id=\"footnote-reference-");
    idattr.append(label.as_str());
    idattr.append(tag.as_str());
    idattr.append("\"");
    let mut text = String::from_str("[");
    text.append(label.as_str());
    text.append(tag.as_str());
    text.append("]");
    let ghost hrefv = href@;
    let ghost idav = idattr@;
    let ghost textv = text@;
    let fattrs = vec![href, idattr];
    let fkids = vec![Element::Text(text)];
    proof {
        assert(fattrs.deep_view() =~= seq![hrefv, idav]);
        crate::html::lemma_elems_view_one(fkids@);
    }
    let anchor = Element::Container(
        ContainerKind::A,
        Meta { attrs: fattrs, children: fkids },
    );
    let ghost anchorv = elem_view(anchor);
    proof {
        assert(anchorv =~= ElemV::Container {
            kind: ContainerKind::A,
            attrs: seq![
                "href=\"#footnote-definition-"@ + label@ + "\""@,
                "id=\"footnote-reference-"@ + label@ + tagv + "\""@,
            ],
            children: seq![ElemV::Text { text: "["@ + label@ + tagv + "]"@ }],
        });
    }
    let supkids = vec![anchor];
    proof {
        crate::html::lemma_elems_view_one(supkids@);
    }
    let r = Element::Container(ContainerKind::Sup, plain_meta(supkids));
    proof {
        assert(elem_view(r) =~= plain(ContainerKind::Sup, seq![anchorv]));
    }
    Result::Ok(r)
        }

} // verus!
