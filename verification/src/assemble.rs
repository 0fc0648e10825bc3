//! The two post-traversal passes and the document assembler.  The footnote
//! resolver turns the recorded definitions and reference counts into an
//! ordered list of footnote items; the table-of-contents builder numbers the
//! recorded headings; the assembler merges the content tree, the accumulator
//! and the caller's configuration into the final document tree.  CSS
//! minification is an external collaborator: the caller hands
//! `stylesheet_source` to it and assembles with `init` around the minified
//! text it returns.

use vstd::prelude::*;

verus! {

use vstd::string::StringExecFns;
use crate::html::{
    Element, ElemV, ContainerKind, VoidKind, elem_view, elems_view, clone_elements,
    lemma_elems_view_one, lemma_elems_view_points, lemma_elems_view_insert, el_text, el_raw,
    el_comment, el_cont, el_cont_attrs, el_cont1, el_cont1_one, el_one, el_two, el_void,
};
use crate::state::{State, StateV, Timestamp, TimestampV, FrontMatterV, fc_lookup, fc_get};
use crate::text::{
    dec_str, usize_to_string, subst_fixed, replace_literal, join_all, join_strings,
};
use crate::transduce::plain;
use crate::err::ConvError;

/// A decimal digit.
pub open spec fn is_digit(c: char) -> bool {
    '0' <= c && c <= '9'
}

/// The value of a decimal digit.
pub open spec fn digit_val(c: char) -> nat {
    ((c as u32) - 48) as nat
}

/// A non-empty text of decimal digits.
pub open spec fn all_digits(s: Seq<char>) -> bool {
    s.len() > 0 && forall|i: int| 0 <= i < s.len() ==> is_digit(s[i])
}

/// The numeric value of a digit text.
pub open spec fn dec_value(s: Seq<char>) -> nat
    decreases s.len(),
{
    if s.len() == 0 {
        0
    } else {
        dec_value(s.drop_last()) * 10 + digit_val(s.last())
    }
}

proof fn lemma_dec_value_grows(s: Seq<char>, j: int, k: int)
    requires
        0 <= j <= k <= s.len(),
    ensures
        dec_value(s.subrange(0, j)) <= dec_value(s.subrange(0, k)),
    decreases k - j,
{
    if j < k {
        lemma_dec_value_grows(s, j, k - 1);
        let p = s.subrange(0, k);
        assert(p.drop_last() =~= s.subrange(0, k - 1));
        assert(dec_value(p) == dec_value(s.subrange(0, k - 1)) * 10 + digit_val(p.last()));
        assert(dec_value(s.subrange(0, k - 1)) * 10 >= dec_value(s.subrange(0, k - 1)));
    }
}

/// Read a footnote label as a decimal integer: every character must be a
/// digit, there must be at least one, and the value must fit the machine.
pub fn parse_label(label: &String) -> (r: Option<usize>)
    ensures
        match r {
            Option::Some(v) => all_digits(label@) && dec_value(label@) == v,
            Option::None => !all_digits(label@) || dec_value(label@) > usize::MAX,
        },
{
    let s = label.as_str();
    let chars = crate::text::str_to_chars(s);
    let n = chars.len();
    if n == 0 {
        return Option::None;
    }
    let mut acc: usize = 0;
    let mut i: usize = 0;
    proof {
        assert(label@.subrange(0, 0).len() == 0);
    }
    while i < n
        invariant
            i <= n,
            n == label@.len(),
            chars@ == label@,
            acc == dec_value(label@.subrange(0, i as int)),
            forall|q: int| 0 <= q < i ==> is_digit(label@[q]),
        decreases n - i,
    {
        let c = chars[i];
        if !('0' <= c && c <= '9') {
            return Option::None;
        }
        let d = (c as u32 - 48) as usize;
        let m = match acc.checked_mul(10) {
            Option::Some(m) => m,
            Option::None => {
                proof {
                    let p = label@.subrange(0, i + 1);
                    assert(p.drop_last() =~= label@.subrange(0, i as int));
                    assert(p.last() == c);
                    assert(dec_value(p) >= acc * 10);
                    lemma_dec_value_grows(label@, i + 1, n as int);
                    assert(label@.subrange(0, n as int) =~= label@);
                }
                return Option::None;
            },
        };
        let a2 = match m.checked_add(d) {
            Option::Some(a2) => a2,
            Option::None => {
                proof {
                    let p = label@.subrange(0, i + 1);
                    assert(p.drop_last() =~= label@.subrange(0, i as int));
                    assert(p.last() == c);
                    assert(dec_value(p) == acc * 10 + digit_val(c));
                    lemma_dec_value_grows(label@, i + 1, n as int);
                    assert(label@.subrange(0, n as int) =~= label@);
                }
                return Option::None;
            },
        };
        acc = a2;
        i = i + 1;
        proof {
            let p = label@.subrange(0, i as int);
            assert(p.drop_last() =~= label@.subrange(0, i - 1));
            assert(p.last() == c);
        }
    }
    proof {
        assert(label@.subrange(0, n as int) =~= label@);
    }
    Option::Some(acc)
}

/// The anchor target of the back-reference with suffix index `i`: the first
/// reference has no suffix, later ones are suffixed `:1`, `:2`, and so on.
pub open spec fn backref_href(label: Seq<char>, i: nat) -> Seq<char> {
    if i == 0 {
        "href=\"#footnote-reference-"@ + label + "\""@
    } else {
        "href=\"#footnote-reference-"@ + label + ":"@ + dec_str(i) + "\""@
    }
}

/// One back-reference anchor of a footnote item.
pub open spec fn backref(label: Seq<char>, i: nat) -> ElemV {
    ElemV::Container {
        kind: ContainerKind::A,
        attrs: seq![backref_href(label, i)],
        children: seq![ElemV::Text { text: "\u{21a9}"@ }],
    }
}

/// All back-reference anchors of a label, one per recorded reference.
pub open spec fn backrefs(label: Seq<char>, count: nat) -> Seq<ElemV> {
    Seq::new(count, |i: int| backref(label, i as nat))
}

/// The resolved list item of one footnote definition: its content followed
/// by its back-references, inside a labelled block.
pub open spec fn footnote_item(label: Seq<char>, content: Seq<ElemV>, count: nat) -> ElemV {
    plain(
        ContainerKind::Li,
        seq![
            ElemV::Container {
                kind: ContainerKind::Div,
                attrs: seq!["id=\"footnote-definition-"@ + label + "\""@],
                children: content + backrefs(label, count),
            },
        ],
    )
}

/// Why footnote resolution failed.
#[verifier::ext_equal]
pub ghost enum FootErr {
    /// The label is not a decimal integer, or its position does not fit.
    BadLabel(Seq<char>),
    /// The label was defined but never referenced.
    Unreferenced(Seq<char>),
}

/// Resolve the recorded definitions in order: each footnote item is placed
/// at position `numeric label - 1` of the growing list.
pub open spec fn resolve_spec(
    defs: Seq<(Seq<char>, Seq<ElemV>)>,
    counter: Seq<(Seq<char>, usize)>,
) -> Result<Seq<ElemV>, FootErr>
    decreases defs.len(),
{
    if defs.len() == 0 {
        Result::Ok(Seq::empty())
    } else {
        match resolve_spec(defs.drop_last(), counter) {
            Result::Ok(acc) => {
                let (label, content) = defs.last();
                match fc_lookup(counter, label) {
                    Option::None => Result::Err(FootErr::Unreferenced(label)),
                    Option::Some(count) => {
                        if all_digits(label) && 1 <= dec_value(label) && dec_value(label)
                            <= usize::MAX && dec_value(label) - 1 <= acc.len() {
                            Result::Ok(
                                acc.insert(
                                    dec_value(label) as int - 1,
                                    footnote_item(label, content, count as nat),
                                ),
                            )
                        } else {
                            Result::Err(FootErr::BadLabel(label))
                        }
                    },
                }
            },
            Result::Err(e) => Result::Err(e),
        }
    }
}

/// Build one footnote item.
fn footnote_item_x(label: &String, content: &Vec<Element>, count: usize) -> (r: Element)
    ensures
        elem_view(r) == footnote_item(label@, elems_view(content@), count as nat),
{
    let mut refs = clone_elements(content);
    let ghost contentv = elems_view(content@);
    let mut i: usize = 0;
    proof {
        assert(elems_view(refs@) + backrefs(label@, 0) =~= elems_view(refs@));
        assert(elems_view(refs@) == contentv + backrefs(label@, 0));
    }
    while i < count
        invariant
            i <= count,
            elems_view(refs@) == contentv + backrefs(label@, i as nat),
        decreases count - i,
    {
        let mut href = String::from_str("href=\"#footnote-reference-");
        href.append(label.as_str());
        if i > 0 {
            href.append(":");
            href.append(usize_to_string(i).as_str());
        }
        href.append("\"");
        proof {
            assert(href@ == backref_href(label@, i as nat));
        }
        let a = el_cont1_one(ContainerKind::A, href, el_text(String::from_str("\u{21a9}")));
        proof {
            assert(elem_view(a) =~~= backref(label@, i as nat));
        }
        let ghost refs0 = refs@;
        refs.push(a);
        i = i + 1;
        proof {
            assert(refs@.drop_last() =~= refs0);
            assert(elems_view(refs@) == elems_view(refs0).push(elem_view(refs@.last())));
            assert(backrefs(label@, i as nat) =~= backrefs(label@, (i - 1) as nat).push(
                backref(label@, (i - 1) as nat),
            ));
            assert(elems_view(refs@) =~= contentv + backrefs(label@, i as nat));
        }
    }
    let mut idattr = String::from_str("id=\"footnote-definition-");
    idattr.append(label.as_str());
    idattr.append("\"");
    let div = el_cont1(ContainerKind::Div, idattr, refs);
    let li = el_one(ContainerKind::Li, div);
    li
}

/// Resolve all recorded footnote definitions against the reference counts.
pub fn resolve_footnotes(
    defs: &Vec<(String, Vec<Element>)>,
    counter: &Vec<(String, usize)>,
) -> (r: Result<Vec<Element>, ConvError>)
    ensures
        match resolve_spec(crate::state::defs_view(defs@), counter.deep_view()) {
            Result::Ok(v) => r matches Result::Ok(out) && elems_view(out@) == v,
            Result::Err(FootErr::BadLabel(l)) => r matches Result::Err(
                ConvError::BadFootnoteLabel(x),
            ) && x@ == l,
            Result::Err(FootErr::Unreferenced(l)) => r matches Result::Err(
                ConvError::UnreferencedFootnote(x),
            ) && x@ == l,
        },
{
    let ghost dv = crate::state::defs_view(defs@);
    let mut out: Vec<Element> = Vec::new();
    let mut i: usize = 0;
    proof {
        assert(dv.subrange(0, 0).len() == 0);
        assert(elems_view(out@) =~= Seq::<ElemV>::empty());
    }
    while i < defs.len()
        invariant
            i <= defs@.len(),
            dv == crate::state::defs_view(defs@),
            dv.len() == defs@.len(),
            resolve_spec(dv.subrange(0, i as int), counter.deep_view()) == Result::<
                Seq<ElemV>,
                FootErr,
            >::Ok(elems_view(out@)),
        decreases defs@.len() - i,
    {
        let label = &defs[i].0;
        let count = match fc_get(counter, label) {
            Option::Some(c) => c,
            Option::None => {
                proof {
                    let cd = counter.deep_view();
                    let sub = dv.subrange(0, i + 1);
                    assert(sub.drop_last() =~= dv.subrange(0, i as int));
                    assert(sub.last() == dv[i as int]);
                    assert(dv[i as int] == (defs@[i as int].0@, elems_view(defs@[i as int].1@)));
                    assert(resolve_spec(sub, cd) is Err);
                    lemma_resolve_prefix_err(dv, cd, i + 1);
                }
                return Result::Err(ConvError::UnreferencedFootnote(label.clone()));
            },
        };
        proof {
            crate::html::lemma_elems_view_len(out@);
        }
        let pos = match parse_label(label) {
            Option::Some(v) if v >= 1 && v - 1 <= out.len() => v - 1,
            _ => {
                proof {
                    let cd = counter.deep_view();
                    let sub = dv.subrange(0, i + 1);
                    assert(sub.drop_last() =~= dv.subrange(0, i as int));
                    assert(sub.last() == dv[i as int]);
                    assert(dv[i as int] == (defs@[i as int].0@, elems_view(defs@[i as int].1@)));
                    crate::html::lemma_elems_view_len(out@);
                    assert(resolve_spec(sub, cd) is Err);
                    lemma_resolve_prefix_err(dv, cd, i + 1);
                }
                return Result::Err(ConvError::BadFootnoteLabel(label.clone()));
            },
        };
        let item = footnote_item_x(label, &defs[i].1, count);
        let ghost out0 = out@;
        out.insert(pos, item);
        i = i + 1;
        proof {
            let sub = dv.subrange(0, i as int);
            assert(sub.drop_last() =~= dv.subrange(0, i - 1));
            assert(sub.last() == dv[i - 1]);
            assert(dv[i - 1] == (defs@[i - 1].0@, elems_view(defs@[i - 1].1@)));
            crate::html::lemma_elems_view_len(out0);
            lemma_elems_view_insert(out0, pos as int, item);
            assert(elems_view(out@) =~= elems_view(out0).insert(pos as int, elem_view(item)));
        }
    }
    proof {
        assert(dv.subrange(0, dv.len() as int) =~= dv);
    }
    Result::Ok(out)
}

/// An error in a prefix is an error of the whole resolution.
proof fn lemma_resolve_prefix_err(
    defs: Seq<(Seq<char>, Seq<ElemV>)>,
    counter: Seq<(Seq<char>, usize)>,
    k: int,
)
    requires
        0 <= k <= defs.len(),
        resolve_spec(defs.subrange(0, k), counter) is Err,
    ensures
        resolve_spec(defs, counter) == resolve_spec(defs.subrange(0, k), counter),
    decreases defs.len() - k,
{
    if k == defs.len() {
        assert(defs.subrange(0, k) =~= defs);
    } else {
        let sub = defs.subrange(0, k + 1);
        assert(sub.drop_last() =~= defs.subrange(0, k));
        assert(resolve_spec(sub, counter) == resolve_spec(defs.subrange(0, k), counter));
        lemma_resolve_prefix_err(defs, counter, k + 1);
    }
}

/// The slot array before any heading: six zero counters.
pub open spec fn init_slots() -> Seq<usize> {
    Seq::new(6, |i: int| 0usize)
}

/// One heading at level `L`: its slot is incremented and every deeper slot
/// is reset to zero.
pub open spec fn toc_step(slots: Seq<usize>, level: u8) -> Seq<usize> {
    Seq::new(
        6,
        |i: int|
            if i == level - 1 {
                crate::state::sat_inc(slots[i])
            } else if i >= level {
                0usize
            } else {
                slots[i]
            },
    )
}

/// The dotted numeral of the first `k` slots.
pub open spec fn numeral(slots: Seq<usize>, k: int) -> Seq<char>
    decreases k,
{
    if k <= 1 {
        dec_str(slots[0] as nat)
    } else {
        numeral(slots, k - 1) + "."@ + dec_str(slots[k - 1] as nat)
    }
}

/// One table-of-contents entry: an indented link to the heading, labelled
/// with its dotted numeral and title.
pub open spec fn toc_entry(level: u8, id: Seq<char>, title: Seq<char>, slots: Seq<usize>) -> ElemV {
    ElemV::Container {
        kind: ContainerKind::P,
        attrs: seq!["style=\"padding-left: "@ + dec_str((level as nat) * 20) + "px\""@],
        children: seq![
            ElemV::Container {
                kind: ContainerKind::A,
                attrs: seq!["href=\"#heading__"@ + id + "\""@],
                children: seq![
                    ElemV::Text { text: numeral(slots, level as int) + ". "@ + title },
                ],
            },
        ],
    }
}

/// The table-of-contents entries of the recorded headings, in document
/// order, together with the final slot array.  A heading with a level
/// outside 1 to 6 never occurs and is passed over.
pub open spec fn toc_build(headings: Seq<(u8, Seq<char>, Seq<char>)>) -> (Seq<ElemV>, Seq<usize>)
    decreases headings.len(),
{
    if headings.len() == 0 {
        (Seq::empty(), init_slots())
    } else {
        let (es, slots) = toc_build(headings.drop_last());
        let (level, id, title) = headings.last();
        if 1 <= level <= 6 {
            let slots2 = toc_step(slots, level);
            (es.push(toc_entry(level, id, title, slots2)), slots2)
        } else {
            (es, slots)
        }
    }
}

fn numeral_x(slots: &Vec<usize>, k: usize) -> (r: String)
    requires
        1 <= k <= 6,
        slots@.len() == 6,
    ensures
        r@ == numeral(slots@, k as int),
{
    let mut out = usize_to_string(slots[0]);
    let mut j: usize = 2;
    while j <= k
        invariant
            2 <= j <= k + 1,
            k <= 6,
            slots@.len() == 6,
            out@ == numeral(slots@, j - 1),
        decreases k + 1 - j,
    {
        out.append(".");
        out.append(usize_to_string(slots[j - 1]).as_str());
        j = j + 1;
    }
    out
}

/// Build the table-of-contents entries for the recorded headings.
pub fn build_toc(headings: &Vec<(u8, String, String)>) -> (r: Vec<Element>)
    ensures
        elems_view(r@) == toc_build(headings.deep_view()).0,
{
    let ghost hv = headings.deep_view();
    let mut slots: Vec<usize> = vec![0, 0, 0, 0, 0, 0];
    let mut out: Vec<Element> = Vec::new();
    let mut i: usize = 0;
    proof {
        assert(hv.subrange(0, 0).len() == 0);
        assert(slots@ =~= init_slots());
        assert(elems_view(out@) =~= Seq::<ElemV>::empty());
    }
    while i < headings.len()
        invariant
            i <= headings@.len(),
            hv == headings.deep_view(),
            hv.len() == headings@.len(),
            slots@.len() == 6,
            elems_view(out@) == toc_build(hv.subrange(0, i as int)).0,
            slots@ == toc_build(hv.subrange(0, i as int)).1,
        decreases headings@.len() - i,
    {
        let level = headings[i].0;
        proof {
            let sub = hv.subrange(0, i + 1);
            assert(sub.drop_last() =~= hv.subrange(0, i as int));
            assert(sub.last() == hv[i as int]);
            let hq = headings@[i as int];
            assert(hv[i as int] == (hq.0, hq.1@, hq.2@));
        }
        if 1 <= level && level <= 6 {
            let li = (level - 1) as usize;
            let cur = slots[li];
            let bumped = if cur == usize::MAX {
                cur
            } else {
                cur + 1
            };
            let ghost slots0 = slots@;
            slots.set(li, bumped);
            let mut j: usize = level as usize;
            while j < 6
                invariant
                    level as usize <= j <= 6,
                    slots@.len() == 6,
                    1 <= level <= 6,
                    forall|q: int|
                        0 <= q < j ==> slots@[q] == toc_step(slots0, level)[q],
                    forall|q: int| j <= q < 6 ==> slots@[q] == slots0[q],
                decreases 6 - j,
            {
                slots.set(j, 0);
                j = j + 1;
            }
            proof {
                assert(slots@ =~= toc_step(slots0, level));
            }
            let num = numeral_x(&slots, level as usize);
            let mut text = num;
            text.append(". ");
            text.append(headings[i].2.as_str());
            let mut href = String::from_str("href=\"#heading__");
            href.append(headings[i].1.as_str());
            href.append("\"");
            let mut style = String::from_str("style=\"padding-left: ");
            style.append(usize_to_string((level as usize) * 20).as_str());
            style.append("px\"");
            let link = el_cont1_one(ContainerKind::A, href, el_text(text));
            let entry = el_cont1_one(ContainerKind::P, style, link);
            proof {
                assert(elem_view(entry) =~~= toc_entry(
                    level,
                    hv[i as int].1,
                    hv[i as int].2,
                    slots@,
                ));
            }
            let ghost out0 = out@;
            out.push(entry);
            i = i + 1;
            proof {
                assert(out@.drop_last() =~= out0);
                assert(elems_view(out@) == elems_view(out0).push(elem_view(out@.last())));
                assert(elems_view(out@) =~= toc_build(hv.subrange(0, i as int)).0);
            }
        } else {
            i = i + 1;
        }
    }
    proof {
        assert(hv.subrange(0, hv.len() as int) =~= hv);
    }
    out
}

/// The stylesheet text that is handed to the minification collaborator:
/// the caller's base stylesheet followed by every CSS rule the traversal
/// collected, in order.
pub fn stylesheet_source(state: &State, base_css: &str) -> (r: String)
    ensures
        r@ == base_css@ + join_all(state@.styles),
{
    let mut out = base_css.to_owned();
    let joined = join_strings(&state.styles);
    out.append(joined.as_str());
    out
}

/// Relies on `chrono::Utc::now` and `chrono::DateTime::format`: the current
/// time, rendered once as a reader-facing date line and once as a full
/// stamp.  Nothing can be promised of the clock's value; the two format
/// strings produce only digits, English month names, spaces and `,:/`
/// punctuation, so neither rendering contains `&`, `<` or `>`.
#[verifier::external_body]
fn now_timestamp() -> (r: Timestamp)
    ensures
        forall|i: int|
            0 <= i < r@.date_line.len() ==> (#[trigger] r@.date_line[i]) != '&'
                && r@.date_line[i] != '<' && r@.date_line[i] != '>',
        forall|i: int|
            0 <= i < r@.stamp.len() ==> (#[trigger] r@.stamp[i]) != '&' && r@.stamp[i] != '<'
                && r@.stamp[i] != '>',
{
    let now = chrono::Utc::now();
    Timestamp {
        date_line: format!("{}", now.format("%e %B, %Y")),
        stamp: format!("{}", now.format("%d/%m/%Y %H:%M:%S")),
    }
}

/// One tag link: `#tag`, linking to the tag's page under the site domain.
pub open spec fn tag_link(tag: Seq<char>, domain: Seq<char>) -> ElemV {
    ElemV::Container {
        kind: ContainerKind::A,
        attrs: seq!["href=\""@ + domain + "/tags/"@ + tag + "\""@, "class=\"tag\""@],
        children: seq![ElemV::Text { text: "#"@ + tag }],
    }
}

/// The tag links of the front matter, in order.
pub open spec fn tag_links(tags: Seq<Seq<char>>, domain: Seq<char>) -> Seq<ElemV> {
    Seq::new(tags.len(), |i: int| tag_link(tags[i], domain))
}

fn tag_links_x(tags: &Vec<String>, domain: &String) -> (r: Vec<Element>)
    ensures
        elems_view(r@) == tag_links(tags.deep_view(), domain@),
{
    let mut out: Vec<Element> = Vec::new();
    let mut i: usize = 0;
    proof {
        assert(elems_view(out@) =~= tag_links(tags.deep_view(), domain@).subrange(0, 0));
    }
    while i < tags.len()
        invariant
            i <= tags@.len(),
            elems_view(out@) == tag_links(tags.deep_view(), domain@).subrange(0, i as int),
        decreases tags@.len() - i,
    {
        let mut href = String::from_str("href=\"");
        href.append(domain.as_str());
        href.append("/tags/");
        href.append(tags[i].as_str());
        href.append("\"");
        let mut label = String::from_str("#");
        label.append(tags[i].as_str());
        let ghost hrefv = href@;
        let attrs = vec![href, String::from_str("class=\"tag\"")];
        let kids = vec![el_text(label)];
        proof {
            assert(attrs.deep_view() =~= seq![hrefv, "class=\"tag\""@]);
            lemma_elems_view_one(kids@);
        }
        let a = el_cont_attrs(ContainerKind::A, attrs, kids);
        proof {
            assert(elem_view(a) =~~= tag_link(tags.deep_view()[i as int], domain@));
        }
        let ghost out0 = out@;
        out.push(a);
        i = i + 1;
        proof {
            assert(out@.drop_last() =~= out0);
            assert(elems_view(out@) == elems_view(out0).push(elem_view(out@.last())));
            assert(elems_view(out@) =~= tag_links(tags.deep_view(), domain@).subrange(
                0,
                i as int,
            ));
        }
    }
    proof {
        assert(tag_links(tags.deep_view(), domain@).subrange(
            0,
            tag_links(tags.deep_view(), domain@).len() as int,
        ) =~= tag_links(tags.deep_view(), domain@));
    }
    out
}

/// The document head: charset and viewport metadata, the open-graph title,
/// the external stylesheet links, the page title, and the collected styles
/// after minification.
pub open spec fn head_view(fm: FrontMatterV, css: Seq<char>) -> ElemV {
    ElemV::Container {
        kind: ContainerKind::Head,
        attrs: Seq::empty(),
        children: seq![
            ElemV::Void { vkind: VoidKind::Meta, attrs: seq!["charset=\"utf-8\""@] },
            ElemV::Void {
                vkind: VoidKind::Meta,
                attrs: seq![
                    "name=\"viewport\""@,
                    "content=\"width=device-width, initial-scale=1\""@,
                ],
            },
            ElemV::Void {
                vkind: VoidKind::Meta,
                attrs: seq!["property=\"og:title\""@, "content=\""@ + fm.title + "\""@],
            },
            ElemV::Void {
                vkind: VoidKind::Link,
                attrs: seq![
                    "rel=\"stylesheet\""@,
                    "href=\"https://fonts.googleapis.com/css2?family=Roboto&family=Jetbrains+Mono&family=Open+Sans\""@,
                ],
            },
            ElemV::Void {
                vkind: VoidKind::Link,
                attrs: seq![
                    "rel=\"stylesheet\""@,
                    "href=\"https://unpkg.com/@fortawesome/fontawesome-free/css/all.min.css\""@,
                ],
            },
            plain(ContainerKind::Title, seq![ElemV::Text { text: fm.title }]),
            plain(ContainerKind::Style, seq![ElemV::Raw { text: css }]),
        ],
    }
}

/// The author, avatar and reading-time block.  Reading time is the word
/// count divided by 120, in minutes.
pub open spec fn meta_block(fm: FrontMatterV, st: StateV) -> ElemV {
    ElemV::Container {
        kind: ContainerKind::Div,
        attrs: seq!["class=\"meta-container\""@],
        children: seq![
            ElemV::Void {
                vkind: VoidKind::Img,
                attrs: seq!["src=\""@ + fm.avatar + "\""@, "alt=\""@ + fm.author + "\""@],
            },
            plain(
                ContainerKind::Span,
                seq![
                    ElemV::Container {
                        kind: ContainerKind::A,
                        attrs: seq![
                            "href=\""@ + st.domain + "/authors/"@ + fm.author + "\""@,
                        ],
                        children: seq![ElemV::Text { text: fm.author }],
                    },
                ],
            ),
            plain(
                ContainerKind::Span,
                seq![
                    ElemV::Raw {
                        text: dec_str((st.word_count / 120) as nat) + " min read &bull; "@
                            + st.date.date_line,
                    },
                ],
            ),
        ],
    }
}

/// The document body: marker comments, title heading, tag links, the meta
/// block, the collapsible table of contents, the content tree, and the
/// footnotes section.
pub open spec fn body_view(section: ElemV, st: StateV, fm: FrontMatterV, foots: Seq<ElemV>) -> ElemV {
    ElemV::Container {
        kind: ContainerKind::Body,
        attrs: Seq::empty(),
        children: seq![
            ElemV::Comment { text: "META_CONTAINER_START"@ },
            plain(ContainerKind::H1, seq![ElemV::Text { text: fm.title }]),
            plain(ContainerKind::Div, tag_links(fm.tags, st.domain)),
            meta_block(fm, st),
            ElemV::Comment { text: "META_CONTAINER_END"@ },
            ElemV::Comment { text: "TOC_START"@ },
            plain(
                ContainerKind::Details,
                seq![
                    plain(
                        ContainerKind::Summary,
                        seq![
                            plain(
                                ContainerKind::Span,
                                seq![ElemV::Text { text: "Table of Contents"@ }],
                            ),
                        ],
                    ),
                    plain(ContainerKind::Div, toc_build(st.headings).0),
                ],
            ),
            ElemV::Comment { text: "TOC_END"@ },
            ElemV::Comment { text: "BLOG_SECTION_START"@ },
            section,
            ElemV::Comment { text: "BLOG_SECTION_END"@ },
            ElemV::Comment { text: "FOOTNOTES_START"@ },
            plain(
                ContainerKind::Section,
                seq![
                    ElemV::Void { vkind: VoidKind::Hr, attrs: Seq::empty() },
                    plain(ContainerKind::Ol, foots),
                ],
            ),
            ElemV::Comment { text: "FOOTNOTES_END"@ },
        ],
    }
}

/// Why assembly failed.
#[verifier::ext_equal]
pub ghost enum AsmErr {
    /// No front matter was recorded during the traversal.
    NoFrontMatter,
    /// Footnote resolution failed.
    Foot(FootErr),
}

/// The whole assembled document for a content tree, a consumed accumulator
/// and the minified stylesheet text.
pub open spec fn assemble_spec(section: ElemV, st: StateV, mini: Seq<char>) -> Result<
    ElemV,
    AsmErr,
> {
    match st.front_matter {
        Option::None => Result::Err(AsmErr::NoFrontMatter),
        Option::Some(fm) => match resolve_spec(st.definitions, st.footnote_counter) {
            Result::Err(fe) => Result::Err(AsmErr::Foot(fe)),
            Result::Ok(foots) => {
                let css = subst_fixed(mini, ":-webkit-scrollbar"@, "::-webkit-scrollbar"@);
                Result::Ok(
                    ElemV::Doctype {
                        children: seq![
                            ElemV::Comment {
                                text: "Generated using `md2html` on "@ + st.date.stamp + "."@,
                            },
                            ElemV::Html {
                                head: Box::new(head_view(fm, css)),
                                body: Box::new(body_view(section, st, fm, foots)),
                            },
                        ],
                    },
                )
            },
        },
    }
}


fn attrs1(a: String) -> (r: Vec<String>)
    ensures
        r.deep_view() == seq![a@],
{
    let ghost av = a@;
    let r = vec![a];
    proof {
        assert(r.deep_view() =~= seq![av]);
    }
    r
}

fn attrs2(a: String, b: String) -> (r: Vec<String>)
    ensures
        r.deep_view() == seq![a@, b@],
{
    let ghost av = a@;
    let ghost bv = b@;
    let r = vec![a, b];
    proof {
        assert(r.deep_view() =~= seq![av, bv]);
    }
    r
}

/// Assemble the final document from the content tree, the accumulator and
/// the stylesheet text the minification collaborator returned for
/// `stylesheet_source`.  Assembly aborts if no front matter was seen or if a
/// footnote cannot be resolved.
pub fn init(section: Element, state: State, minified_css: &str) -> (r: Result<
    Element,
    ConvError,
>)
    ensures
        match assemble_spec(elem_view(section), state@, minified_css@) {
            Result::Ok(v) => r matches Result::Ok(el) && elem_view(el) == v,
            Result::Err(AsmErr::NoFrontMatter) => r matches Result::Err(
                ConvError::MissingFrontMatter,
            ),
            Result::Err(AsmErr::Foot(FootErr::BadLabel(l))) => r matches Result::Err(
                ConvError::BadFootnoteLabel(x),
            ) && x@ == l,
            Result::Err(AsmErr::Foot(FootErr::Unreferenced(l))) => r matches Result::Err(
                ConvError::UnreferencedFootnote(x),
            ) && x@ == l,
        },
{
    let fm = match state.front_matter {
        Option::Some(ref fm) => fm,
        Option::None => {
            return Result::Err(ConvError::MissingFrontMatter);
        },
    };
    let foots = match resolve_footnotes(&state.definitions, &state.footnote_counter) {
        Result::Ok(f) => f,
        Result::Err(e) => {
            return Result::Err(e);
        },
    };
    let css = replace_literal(minified_css, ":-webkit-scrollbar", "::-webkit-scrollbar");

    // head
    let ghost cssv = css@;
    let m1 = el_void(VoidKind::Meta, attrs1(String::from_str("charset=\"utf-8\"")));
    let m2 = el_void(
        VoidKind::Meta,
        attrs2(
            String::from_str("name=\"viewport\""),
            String::from_str("content=\"width=device-width, initial-scale=1\""),
        ),
    );
    let mut og = String::from_str("content=\"");
    og.append(fm.title.as_str());
    og.append("\"");
    let m3 = el_void(VoidKind::Meta, attrs2(String::from_str("property=\"og:title\""), og));
    let l1 = el_void(
        VoidKind::Link,
        attrs2(
            String::from_str("rel=\"stylesheet\""),
            String::from_str(
                "href=\"https://fonts.googleapis.com/css2?family=Roboto&family=Jetbrains+Mono&family=Open+Sans\"",
            ),
        ),
    );
    let l2 = el_void(
        VoidKind::Link,
        attrs2(
            String::from_str("rel=\"stylesheet\""),
            String::from_str(
                "href=\"https://unpkg.com/@fortawesome/fontawesome-free/css/all.min.css\"",
            ),
        ),
    );
    let titleel = el_one(ContainerKind::Title, el_text(fm.title.clone()));
    let styleel = el_one(ContainerKind::Style, el_raw(css));
    let headkids = vec![m1, m2, m3, l1, l2, titleel, styleel];
    let ghost hk = headkids@;
    proof {
        lemma_elems_view_points(hk);
    }
    let head = el_cont(ContainerKind::Head, headkids);
    proof {
        let hv2 = head_view(fm@, cssv);
        assert(elems_view(hk)[0] =~~= hv2->Container_children[0]);
        assert(elems_view(hk)[1] =~~= hv2->Container_children[1]);
        assert(elems_view(hk)[2] =~~= hv2->Container_children[2]);
        assert(elems_view(hk)[3] =~~= hv2->Container_children[3]);
        assert(elems_view(hk)[4] =~~= hv2->Container_children[4]);
        assert(elems_view(hk)[5] =~~= hv2->Container_children[5]);
        assert(elems_view(hk)[6] =~~= hv2->Container_children[6]);
        assert(elems_view(hk) =~= hv2->Container_children);
        assert(elem_view(head) == hv2);
    }

    // body
    let c1 = el_comment(String::from_str("META_CONTAINER_START"));
    let h1 = el_one(ContainerKind::H1, el_text(fm.title.clone()));
    let tagdiv = el_cont(ContainerKind::Div, tag_links_x(&fm.tags, &state.domain));
    let avatar_img = {
        let mut src = String::from_str("src=\"");
        src.append(fm.avatar.as_str());
        src.append("\"");
        let mut alt = String::from_str("alt=\"");
        alt.append(fm.author.as_str());
        alt.append("\"");
        el_void(VoidKind::Img, attrs2(src, alt))
    };
    let author_span = {
        let mut href = String::from_str("href=\"");
        href.append(state.domain.as_str());
        href.append("/authors/");
        href.append(fm.author.as_str());
        href.append("\"");
        let a = el_cont1_one(ContainerKind::A, href, el_text(fm.author.clone()));
        el_one(ContainerKind::Span, a)
    };
    let time_span = {
        let mut t = usize_to_string(state.word_count / 120);
        t.append(" min read &bull; ");
        t.append(state.date.date_line.as_str());
        el_one(ContainerKind::Span, el_raw(t))
    };
    let ghost aiv = elem_view(avatar_img);
    let ghost asv = elem_view(author_span);
    let ghost tsv = elem_view(time_span);
    let metakids = vec![avatar_img, author_span, time_span];
    let ghost mk = metakids@;
    proof {
        lemma_elems_view_points(mk);
        assert(elems_view(mk) =~= seq![aiv, asv, tsv]);
    }
    let metadiv = el_cont1(
        ContainerKind::Div,
        String::from_str("class=\"meta-container\""),
        metakids,
    );
    proof {
        let mb = meta_block(fm@, state@);
        assert(aiv =~~= mb->Container_children[0]);
        assert(asv =~~= mb->Container_children[1]);
        assert(tsv =~~= mb->Container_children[2]);
        assert(elems_view(mk) =~= mb->Container_children);
        assert(elem_view(metadiv) == mb);
    }
    let c2 = el_comment(String::from_str("META_CONTAINER_END"));
    let c3 = el_comment(String::from_str("TOC_START"));
    let summary = el_one(
        ContainerKind::Summary,
        el_one(ContainerKind::Span, el_text(String::from_str("Table of Contents"))),
    );
    let tocdiv = el_cont(ContainerKind::Div, build_toc(&state.headings));
    let details = el_two(ContainerKind::Details, summary, tocdiv);
    let c4 = el_comment(String::from_str("TOC_END"));
    let c5 = el_comment(String::from_str("BLOG_SECTION_START"));
    let c6 = el_comment(String::from_str("BLOG_SECTION_END"));
    let c7 = el_comment(String::from_str("FOOTNOTES_START"));
    let noattrs: Vec<String> = Vec::new();
    proof {
        assert(noattrs.deep_view() =~= Seq::<Seq<char>>::empty());
    }
    let hr = el_void(VoidKind::Hr, noattrs);
    let ghost footsv = elems_view(foots@);
    let ol = el_cont(ContainerKind::Ol, foots);
    let footsec = el_two(ContainerKind::Section, hr, ol);
    let c8 = el_comment(String::from_str("FOOTNOTES_END"));
    let ghost sectionv = elem_view(section);
    let bodykids = vec![
        c1,
        h1,
        tagdiv,
        metadiv,
        c2,
        c3,
        details,
        c4,
        c5,
        section,
        c6,
        c7,
        footsec,
        c8,
    ];
    let ghost bk = bodykids@;
    proof {
        lemma_elems_view_points(bk);
    }
    let body = el_cont(ContainerKind::Body, bodykids);
    proof {
        let bv2 = body_view(sectionv, state@, fm@, footsv);
        assert(elems_view(bk)[0] =~~= bv2->Container_children[0]);
        assert(elems_view(bk)[1] =~~= bv2->Container_children[1]);
        assert(elems_view(bk)[2] =~~= bv2->Container_children[2]);
        assert(elems_view(bk)[3] =~~= bv2->Container_children[3]);
        assert(elems_view(bk)[4] =~~= bv2->Container_children[4]);
        assert(elems_view(bk)[5] =~~= bv2->Container_children[5]);
        assert(elems_view(bk)[6] =~~= bv2->Container_children[6]);
        assert(elems_view(bk)[7] =~~= bv2->Container_children[7]);
        assert(elems_view(bk)[8] =~~= bv2->Container_children[8]);
        assert(elems_view(bk)[9] =~~= bv2->Container_children[9]);
        assert(elems_view(bk)[10] =~~= bv2->Container_children[10]);
        assert(elems_view(bk)[11] =~~= bv2->Container_children[11]);
        assert(elems_view(bk)[12] =~~= bv2->Container_children[12]);
        assert(elems_view(bk)[13] =~~= bv2->Container_children[13]);
        assert(elems_view(bk) =~= bv2->Container_children);
        assert(elem_view(body) == bv2);
    }

    let mut genc = String::from_str("Generated using `md2html` on ");
    genc.append(state.date.stamp.as_str());
    genc.append(".");
    let ghost gencv = genc@;
    let comment = el_comment(genc);
    let ghost headv = elem_view(head);
    let ghost bodyv = elem_view(body);
    let html = Element::Html(Box::new(head), Box::new(body));
    proof {
        assert(elem_view(html) =~= ElemV::Html {
            head: Box::new(headv),
            body: Box::new(bodyv),
        });
    }
    let ghost htmlv = elem_view(html);
    let dockids = vec![comment, html];
    let ghost dk = dockids@;
    proof {
        lemma_elems_view_points(dk);
    }
    let doc = Element::Doctype(crate::html::Meta { attrs: Vec::new(), children: dockids });
    proof {
        assert(elems_view(dk) =~= seq![ElemV::Comment { text: gencv }, htmlv]);
        assert(elem_view(doc) == (ElemV::Doctype {
            children: seq![ElemV::Comment { text: gencv }, htmlv],
        }));
        assert(assemble_spec(sectionv, state@, minified_css@) == Result::<ElemV, AsmErr>::Ok(
            ElemV::Doctype {
                children: seq![
                    ElemV::Comment {
                        text: "Generated using `md2html` on "@ + state@.date.stamp + "."@,
                    },
                    ElemV::Html {
                        head: Box::new(head_view(fm@, cssv)),
                        body: Box::new(body_view(sectionv, state@, fm@, footsv)),
                    },
                ],
            },
        ));
    }
    Result::Ok(doc)
}


/// The accumulator as it stands before the traversal of one document.
pub open spec fn st_init(domain: Seq<char>) -> StateV {
    StateV {
        table_counter: 0,
        front_matter: Option::None,
        footnote_counter: Seq::empty(),
        date: TimestampV { date_line: Seq::empty(), stamp: Seq::empty() },
        definitions: Seq::empty(),
        styles: Seq::empty(),
        word_count: 0,
        headings: Seq::empty(),
        domain,
    }
}

/// How the traversal phase of a run must relate to its specification, for
/// the timestamp the clock gave: the tree is transduced from the empty
/// accumulator seeded with the domain, and every abort maps to its error.
pub open spec fn transduce_matches(
    r: Result<(Element, State), ConvError>,
    n: crate::transduce::MdV,
    domain: Seq<char>,
    ts: TimestampV,
) -> bool {
    match crate::transduce::trans(n, st_init(domain), ts) {
        Result::Err(crate::transduce::TransErr::Emoticon(sc)) => r matches Result::Err(
            ConvError::UnknownEmoticon(x),
        ) && x@ == sc,
        Result::Err(crate::transduce::TransErr::FrontMatter(p)) => r matches Result::Err(
            ConvError::FrontMatter(x),
        ) && x@ == p,
        Result::Ok(pair) => r matches Result::Ok(out) && elem_view(out.0) == pair.0 && out.1@
            == pair.1,
    }
}

/// The traversal phase of one run: create the empty accumulator seeded with
/// the site domain, take the clock's timestamp, and transduce the whole
/// tree.  The caller then hands `stylesheet_source` of the returned
/// accumulator to the minification collaborator and assembles the document
/// with `init` around the minified text.
pub fn transduce_document(root: &crate::transduce::MdNode, domain: String) -> (r: Result<
    (Element, State),
    ConvError,
>)
    requires
        crate::transduce::md_wf(crate::transduce::md_view(*root)),
    ensures
        exists|ts: TimestampV|
            #[trigger] transduce_matches(r, crate::transduce::md_view(*root), domain@, ts),
{
    let ghost dv = domain@;
    let mut state = State::new(domain);
    proof {
        assert(state@ =~= st_init(dv));
    }
    let now = now_timestamp();
    let r = match crate::transduce::iter_nodes(root, &mut state, &now) {
        Result::Err(e) => Result::Err(e),
        Result::Ok(section) => Result::Ok((section, state)),
    };
    proof {
        assert(transduce_matches(r, crate::transduce::md_view(*root), dv, now@));
    }
    r
}

} // verus!
