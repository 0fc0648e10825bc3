//! Parsing of the front-matter block: a key/value block at the head of the
//! document carrying `title`, `tags`, `author` and `avatar`.  The payload is
//! first trimmed of surrounding delimiter (`+`) and whitespace characters;
//! each remaining line is blank, a `#` comment, or `key = value`, where a
//! value is a double-quoted string (with `\"`, `\\`, `\n`, `\t` escapes) or
//! a single-line list of such strings in square brackets.  Each of the four
//! known keys must appear exactly once; lines with other keys are ignored.

use vstd::prelude::*;

verus! {

use vstd::string::StringExecFns;
use crate::text::{str_to_chars, chars_to_string, is_ws, is_whitespace};
use crate::state::{FrontMatter, FrontMatterV};
use crate::err::ConvError;

/// Characters trimmed around the payload: the block delimiter and whitespace.
pub open spec fn is_pad(c: char) -> bool {
    c == '+' || is_ws(c)
}

/// The payload without leading pad characters.
pub open spec fn pad_trim_lead(s: Seq<char>) -> Seq<char>
    decreases s.len(),
{
    if s.len() > 0 && is_pad(s[0]) {
        pad_trim_lead(s.drop_first())
    } else {
        s
    }
}

/// The payload without trailing pad characters.
pub open spec fn pad_trim_trail(s: Seq<char>) -> Seq<char>
    decreases s.len(),
{
    if s.len() > 0 && is_pad(s.last()) {
        pad_trim_trail(s.drop_last())
    } else {
        s
    }
}

/// The payload without surrounding pad characters.
pub open spec fn pad_trim(s: Seq<char>) -> Seq<char> {
    pad_trim_trail(pad_trim_lead(s))
}

/// Length of the whitespace run starting at `i`.
pub open spec fn ws_len(s: Seq<char>, i: int) -> nat
    decreases s.len() - i,
{
    if 0 <= i < s.len() && is_ws(s[i]) {
        1 + ws_len(s, i + 1)
    } else {
        0
    }
}

/// Length of the key starting at `i`: characters that are neither
/// whitespace nor `=`.
pub open spec fn key_len(s: Seq<char>, i: int) -> nat
    decreases s.len() - i,
{
    if 0 <= i < s.len() && !is_ws(s[i]) && s[i] != '=' {
        1 + key_len(s, i + 1)
    } else {
        0
    }
}

/// Length of the line starting at `i`: characters before the next newline.
pub open spec fn line_len(s: Seq<char>, i: int) -> nat
    decreases s.len() - i,
{
    if 0 <= i < s.len() && s[i] != '\n' {
        1 + line_len(s, i + 1)
    } else {
        0
    }
}

/// The unescaped character an escape letter stands for.
pub open spec fn unesc(c: char) -> Option<char> {
    if c == '"' {
        Option::Some('"')
    } else if c == '\\' {
        Option::Some('\\')
    } else if c == 'n' {
        Option::Some('\n')
    } else if c == 't' {
        Option::Some('\t')
    } else {
        Option::None
    }
}

/// Read a quoted string from just after its opening quote: the unescaped
/// content and the number of characters consumed, including the closing
/// quote.  An unterminated string or an unknown escape is an error.
pub open spec fn qstr_from(s: Seq<char>, i: int) -> Option<(Seq<char>, nat)>
    decreases s.len() - i,
{
    if i < 0 || i >= s.len() {
        Option::None
    } else if s[i] == '"' {
        Option::Some((Seq::empty(), 1))
    } else if s[i] == '\\' {
        if i + 1 < s.len() {
            match unesc(s[i + 1]) {
                Option::Some(c) => match qstr_from(s, i + 2) {
                    Option::Some((rest, u)) => Option::Some((seq![c] + rest, 2 + u)),
                    Option::None => Option::None,
                },
                Option::None => Option::None,
            }
        } else {
            Option::None
        }
    } else {
        match qstr_from(s, i + 1) {
            Option::Some((rest, u)) => Option::Some((seq![s[i]] + rest, 1 + u)),
            Option::None => Option::None,
        }
    }
}

/// Read a list of quoted strings from just after its opening bracket: the
/// items and the number of characters consumed, including the closing
/// bracket.
pub open spec fn list_from(s: Seq<char>, i: int) -> Option<(Seq<Seq<char>>, nat)>
    decreases s.len() - i,
{
    if i < 0 || i >= s.len() {
        Option::None
    } else {
        let j = i + ws_len(s, i);
        if j >= s.len() {
            Option::None
        } else if s[j as int] == ']' {
            Option::Some((Seq::empty(), (j - i + 1) as nat))
        } else if s[j] == '"' {
            match qstr_from(s, j + 1) {
                Option::Some((item, u)) => {
                    let p = j + 1 + u;
                    let j2 = p + ws_len(s, p as int);
                    if j2 >= s.len() {
                        Option::None
                    } else if s[j2 as int] == ',' {
                        match list_from(s, j2 + 1) {
                            Option::Some((rest, u2)) => Option::Some(
                                (seq![item] + rest, ((j2 + 1 - i) as nat + u2) as nat),
                            ),
                            Option::None => Option::None,
                        }
                    } else if s[j2 as int] == ']' {
                        Option::Some((seq![item], (j2 - i + 1) as nat))
                    } else {
                        Option::None
                    }
                },
                Option::None => Option::None,
            }
        } else {
            Option::None
        }
    }
}

/// The model of one parsed value.
pub ghost enum ValV {
    VStr(Seq<char>),
    VList(Seq<Seq<char>>),
}

/// One parsed line: an error, a blank line, or one `key = value` pair.
pub ghost enum LineV {
    Bad,
    Blank,
    Kv(Seq<char>, ValV),
}

/// Parse one line: blank lines and `#` comment lines carry nothing.
pub open spec fn line_parse(line: Seq<char>) -> LineV {
    let i0 = ws_len(line, 0) as int;
    if i0 >= line.len() {
        LineV::Blank
    } else if line[i0] == '#' {
        LineV::Blank
    } else {
        let kl = key_len(line, i0) as int;
        if kl == 0 {
            LineV::Bad
        } else {
            let key = line.subrange(i0, i0 + kl);
            let i1 = i0 + kl + ws_len(line, i0 + kl);
            if i1 >= line.len() || line[i1 as int] != '=' {
                LineV::Bad
            } else {
                let i2 = i1 + 1 + ws_len(line, i1 + 1);
                if i2 >= line.len() {
                    LineV::Bad
                } else if line[i2 as int] == '"' {
                    match qstr_from(line, i2 + 1) {
                        Option::Some((content, u)) => {
                            let e = i2 + 1 + u;
                            if e + ws_len(line, e as int) == line.len() {
                                LineV::Kv(key, ValV::VStr(content))
                            } else {
                                LineV::Bad
                            }
                        },
                        Option::None => LineV::Bad,
                    }
                } else if line[i2 as int] == '[' {
                    match list_from(line, i2 + 1) {
                        Option::Some((items, u)) => {
                            let e = i2 + 1 + u;
                            if e + ws_len(line, e as int) == line.len() {
                                LineV::Kv(key, ValV::VList(items))
                            } else {
                                LineV::Bad
                            }
                        },
                        Option::None => LineV::Bad,
                    }
                } else {
                    LineV::Bad
                }
            }
        }
    }
}

/// The fields collected so far.
pub ghost struct FmAccV {
    pub title: Option<Seq<char>>,
    pub tags: Option<Seq<Seq<char>>>,
    pub author: Option<Seq<char>>,
    pub avatar: Option<Seq<char>>,
}

/// The empty collection of fields.
pub open spec fn fm_acc_empty() -> FmAccV {
    FmAccV {
        title: Option::None,
        tags: Option::None,
        author: Option::None,
        avatar: Option::None,
    }
}

/// Record one `key = value` pair: a known key must not repeat and must carry
/// the right kind of value; unknown keys are ignored.
pub open spec fn fm_apply(acc: FmAccV, key: Seq<char>, val: ValV) -> Option<FmAccV> {
    if key == "title"@ {
        match (acc.title, val) {
            (Option::None, ValV::VStr(s)) => Option::Some(FmAccV { title: Option::Some(s), ..acc }),
            _ => Option::None,
        }
    } else if key == "tags"@ {
        match (acc.tags, val) {
            (Option::None, ValV::VList(l)) => Option::Some(FmAccV { tags: Option::Some(l), ..acc }),
            _ => Option::None,
        }
    } else if key == "author"@ {
        match (acc.author, val) {
            (Option::None, ValV::VStr(s)) => Option::Some(
                FmAccV { author: Option::Some(s), ..acc },
            ),
            _ => Option::None,
        }
    } else if key == "avatar"@ {
        match (acc.avatar, val) {
            (Option::None, ValV::VStr(s)) => Option::Some(
                FmAccV { avatar: Option::Some(s), ..acc },
            ),
            _ => Option::None,
        }
    } else {
        Option::Some(acc)
    }
}

/// The parse succeeds only when all four fields were seen.
pub open spec fn fm_finish(acc: FmAccV) -> Option<FrontMatterV> {
    match (acc.title, acc.tags, acc.author, acc.avatar) {
        (Option::Some(t), Option::Some(g), Option::Some(a), Option::Some(v)) => Option::Some(
            FrontMatterV { title: t, tags: g, author: a, avatar: v },
        ),
        _ => Option::None,
    }
}

/// Process the trimmed payload line by line from position `i`.
pub open spec fn fm_from(s: Seq<char>, i: int, acc: FmAccV) -> Option<FrontMatterV>
    decreases s.len() - i,
{
    if i < 0 || i >= s.len() {
        fm_finish(acc)
    } else {
        let ll = line_len(s, i);
        let nxt: int = if i + ll + 1 <= s.len() {
            i + ll + 1
        } else {
            s.len() as int
        };
        match line_parse(s.subrange(i, i + ll)) {
            LineV::Bad => Option::None,
            LineV::Blank => fm_from(s, nxt, acc),
            LineV::Kv(k, v) => match fm_apply(acc, k, v) {
                Option::Some(a2) => fm_from(s, nxt, a2),
                Option::None => Option::None,
            },
        }
    }
}

/// The whole front-matter parse: trim the payload, then read its lines.
pub open spec fn fm_parse(payload: Seq<char>) -> Option<FrontMatterV> {
    fm_from(pad_trim(payload), 0, fm_acc_empty())
}

fn is_pad_x(c: char) -> (r: bool)
    ensures
        r == is_pad(c),
{
    c == '+' || is_whitespace(c)
}

fn pad_trim_x(v: &Vec<char>) -> (r: Vec<char>)
    ensures
        r@ == pad_trim(v@),
{
    let n = v.len();
    let mut a: usize = 0;
    proof {
        assert(v@.subrange(0, n as int) =~= v@);
    }
    while a < n && is_pad_x(v[a])
        invariant
            a <= n,
            n == v@.len(),
            pad_trim_lead(v@) == pad_trim_lead(v@.subrange(a as int, n as int)),
        decreases n - a,
    {
        proof {
            let suf = v@.subrange(a as int, n as int);
            assert(suf[0] == v@[a as int]);
            assert(suf.drop_first() =~= v@.subrange(a + 1, n as int));
        }
        a = a + 1;
    }
    proof {
        let suf = v@.subrange(a as int, n as int);
        assert(pad_trim_lead(suf) == suf);
    }
    let mut b: usize = n;
    while b > a && is_pad_x(v[b - 1])
        invariant
            a <= b <= n,
            n == v@.len(),
            pad_trim_lead(v@) == v@.subrange(a as int, n as int),
            pad_trim_trail(v@.subrange(a as int, n as int)) == pad_trim_trail(
                v@.subrange(a as int, b as int),
            ),
        decreases b,
    {
        proof {
            let cur = v@.subrange(a as int, b as int);
            assert(cur.last() == v@[b - 1]);
            assert(cur.drop_last() =~= v@.subrange(a as int, b - 1));
        }
        b = b - 1;
    }
    proof {
        let cur = v@.subrange(a as int, b as int);
        if cur.len() > 0 {
            assert(cur.last() == v@[b - 1]);
        }
        assert(pad_trim_trail(cur) == cur);
    }
    let mut out: Vec<char> = Vec::new();
    let mut i: usize = a;
    while i < b
        invariant
            a <= i <= b <= n,
            n == v@.len(),
            out@ == v@.subrange(a as int, i as int),
        decreases b - i,
    {
        out.push(v[i]);
        i = i + 1;
        proof {
            assert(out@ =~= v@.subrange(a as int, i as int));
        }
    }
    proof {
        assert(out@ == v@.subrange(a as int, b as int));
    }
    out
}

fn ws_len_x(v: &Vec<char>, i: usize) -> (r: usize)
    requires
        i <= v@.len(),
    ensures
        r as nat == ws_len(v@, i as int),
        i + r <= v@.len(),
    decreases v@.len() - i,
{
    if i < v.len() && is_whitespace(v[i]) {
        1 + ws_len_x(v, i + 1)
    } else {
        0
    }
}

fn key_len_x(v: &Vec<char>, i: usize) -> (r: usize)
    requires
        i <= v@.len(),
    ensures
        r as nat == key_len(v@, i as int),
        i + r <= v@.len(),
    decreases v@.len() - i,
{
    if i < v.len() && !is_whitespace(v[i]) && !(v[i] == '=') {
        1 + key_len_x(v, i + 1)
    } else {
        0
    }
}

fn line_len_x(v: &Vec<char>, i: usize) -> (r: usize)
    requires
        i <= v@.len(),
    ensures
        r as nat == line_len(v@, i as int),
        i + r <= v@.len(),
    decreases v@.len() - i,
{
    if i < v.len() && !(v[i] == '\n') {
        1 + line_len_x(v, i + 1)
    } else {
        0
    }
}

fn unesc_x(c: char) -> (r: Option<char>)
    ensures
        r == unesc(c),
{
    if c == '"' {
        Option::Some('"')
    } else if c == '\\' {
        Option::Some('\\')
    } else if c == 'n' {
        Option::Some('\n')
    } else if c == 't' {
        Option::Some('\t')
    } else {
        Option::None
    }
}

fn qstr_x(v: &Vec<char>, i: usize) -> (r: Option<(Vec<char>, usize)>)
    requires
        i <= v@.len(),
    ensures
        match r {
            Option::Some((content, u)) => {
                &&& qstr_from(v@, i as int) == Option::Some((content@, u as nat))
                &&& i + u <= v@.len()
            },
            Option::None => qstr_from(v@, i as int) is None,
        },
    decreases v@.len() - i,
{
    if i >= v.len() {
        Option::None
    } else if v[i] == '"' {
        Option::Some((Vec::new(), 1))
    } else if v[i] == '\\' {
        if i + 1 < v.len() {
            match unesc_x(v[i + 1]) {
                Option::Some(c) => match qstr_x(v, i + 2) {
                    Option::Some((rest, u)) => {
                        let ghost rest0 = rest@;
                        let mut content = rest;
                        content.insert(0, c);
                        proof {
                            assert(content@ =~= seq![c] + rest0);
                        }
                        Option::Some((content, 2 + u))
                    },
                    Option::None => Option::None,
                },
                Option::None => Option::None,
            }
        } else {
            Option::None
        }
    } else {
        let c = v[i];
        match qstr_x(v, i + 1) {
            Option::Some((rest, u)) => {
                let ghost rest0 = rest@;
                let mut content = rest;
                content.insert(0, c);
                proof {
                    assert(content@ =~= seq![c] + rest0);
                }
                Option::Some((content, 1 + u))
            },
            Option::None => Option::None,
        }
    }
}

fn list_x(v: &Vec<char>, i: usize) -> (r: Option<(Vec<String>, usize)>)
    requires
        i <= v@.len(),
    ensures
        match r {
            Option::Some((items, u)) => {
                &&& list_from(v@, i as int) == Option::Some((items.deep_view(), u as nat))
                &&& i + u <= v@.len()
            },
            Option::None => list_from(v@, i as int) is None,
        },
    decreases v@.len() - i,
{
    if i >= v.len() {
        Option::None
    } else {
        let j = i + ws_len_x(v, i);
        if j >= v.len() {
            Option::None
        } else if v[j] == ']' {
            let items: Vec<String> = Vec::new();
            proof {
                assert(items.deep_view() =~= Seq::<Seq<char>>::empty());
            }
            Option::Some((items, j - i + 1))
        } else if v[j] == '"' {
            match qstr_x(v, j + 1) {
                Option::Some((item, u)) => {
                    let p = j + 1 + u;
                    let j2 = p + ws_len_x(v, p);
                    if j2 >= v.len() {
                        Option::None
                    } else if v[j2] == ',' {
                        match list_x(v, j2 + 1) {
                            Option::Some((rest, u2)) => {
                                let ghost rest0 = rest.deep_view();
                                let mut items = rest;
                                items.insert(0, chars_to_string(&item));
                                proof {
                                    assert(items.deep_view() =~= seq![item@] + rest0);
                                }
                                Option::Some((items, (j2 + 1 - i) + u2))
                            },
                            Option::None => Option::None,
                        }
                    } else if v[j2] == ']' {
                        let items = vec![chars_to_string(&item)];
                        proof {
                            assert(items.deep_view() =~= seq![item@]);
                        }
                        Option::Some((items, j2 - i + 1))
                    } else {
                        Option::None
                    }
                },
                Option::None => Option::None,
            }
        } else {
            Option::None
        }
    }
}

/// One parsed value.
pub enum Val {
    VStr(String),
    VList(Vec<String>),
}

impl View for Val {
    type V = ValV;

    open spec fn view(&self) -> ValV {
        match self {
            Val::VStr(s) => ValV::VStr(s@),
            Val::VList(l) => ValV::VList(l.deep_view()),
        }
    }
}

/// One parsed line.
pub enum Line {
    Bad,
    Blank,
    Kv(String, Val),
}

impl View for Line {
    type V = LineV;

    open spec fn view(&self) -> LineV {
        match self {
            Line::Bad => LineV::Bad,
            Line::Blank => LineV::Blank,
            Line::Kv(k, v) => LineV::Kv(k@, v@),
        }
    }
}

fn line_parse_x(line: &Vec<char>) -> (r: Line)
    ensures
        r@ == line_parse(line@),
{
    let ln = line.len();
    let i0 = ws_len_x(line, 0);
    if i0 >= ln {
        Line::Blank
    } else if line[i0] == '#' {
        Line::Blank
    } else {
        let kl = key_len_x(line, i0);
        if kl == 0 {
            Line::Bad
        } else {
            let kend = i0 + kl;
            let mut key_chars: Vec<char> = Vec::new();
            let mut q: usize = i0;
            while q < kend
                invariant
                    i0 <= q <= kend,
                    kend <= line@.len(),
                    ln == line@.len(),
                    key_chars@ == line@.subrange(i0 as int, q as int),
                decreases kend - q,
            {
                key_chars.push(line[q]);
                q = q + 1;
                proof {
                    assert(key_chars@ =~= line@.subrange(i0 as int, q as int));
                }
            }
            let key = chars_to_string(&key_chars);
            let i1 = kend + ws_len_x(line, kend);
            if i1 >= ln || !(line[i1] == '=') {
                Line::Bad
            } else {
                let i2 = i1 + 1 + ws_len_x(line, i1 + 1);
                if i2 >= ln {
                    Line::Bad
                } else if line[i2] == '"' {
                    match qstr_x(line, i2 + 1) {
                        Option::Some((content, u)) => {
                            let e = i2 + 1 + u;
                            if e + ws_len_x(line, e) == ln {
                                Line::Kv(key, Val::VStr(chars_to_string(&content)))
                            } else {
                                Line::Bad
                            }
                        },
                        Option::None => Line::Bad,
                    }
                } else if line[i2] == '[' {
                    match list_x(line, i2 + 1) {
                        Option::Some((items, u)) => {
                            let e = i2 + 1 + u;
                            if e + ws_len_x(line, e) == ln {
                                Line::Kv(key, Val::VList(items))
                            } else {
                                Line::Bad
                            }
                        },
                        Option::None => Line::Bad,
                    }
                } else {
                    Line::Bad
                }
            }
        }
    }
}

struct FmAcc {
    title: Option<String>,
    tags: Option<Vec<String>>,
    author: Option<String>,
    avatar: Option<String>,
}

spec fn acc_view(a: &FmAcc) -> FmAccV {
    FmAccV {
        title: match a.title {
            Option::Some(s) => Option::Some(s@),
            Option::None => Option::None,
        },
        tags: match a.tags {
            Option::Some(l) => Option::Some(l.deep_view()),
            Option::None => Option::None,
        },
        author: match a.author {
            Option::Some(s) => Option::Some(s@),
            Option::None => Option::None,
        },
        avatar: match a.avatar {
            Option::Some(s) => Option::Some(s@),
            Option::None => Option::None,
        },
    }
}

fn fm_apply_x(acc: FmAcc, key: String, val: Val) -> (r: Option<FmAcc>)
    ensures
        match r {
            Option::Some(a2) => fm_apply(acc_view(&acc), key@, val@) == Option::Some(
                acc_view(&a2),
            ),
            Option::None => fm_apply(acc_view(&acc), key@, val@) is None,
        },
{
    if key == String::from_str("title") {
        match (acc.title, val) {
            (Option::None, Val::VStr(s)) => Option::Some(
                FmAcc { title: Option::Some(s), tags: acc.tags, author: acc.author, avatar: acc.avatar },
            ),
            _ => Option::None,
        }
    } else if key == String::from_str("tags") {
        match (acc.tags, val) {
            (Option::None, Val::VList(l)) => Option::Some(
                FmAcc { title: acc.title, tags: Option::Some(l), author: acc.author, avatar: acc.avatar },
            ),
            _ => Option::None,
        }
    } else if key == String::from_str("author") {
        match (acc.author, val) {
            (Option::None, Val::VStr(s)) => Option::Some(
                FmAcc { title: acc.title, tags: acc.tags, author: Option::Some(s), avatar: acc.avatar },
            ),
            _ => Option::None,
        }
    } else if key == String::from_str("avatar") {
        match (acc.avatar, val) {
            (Option::None, Val::VStr(s)) => Option::Some(
                FmAcc { title: acc.title, tags: acc.tags, author: acc.author, avatar: Option::Some(s) },
            ),
            _ => Option::None,
        }
    } else {
        Option::Some(acc)
    }
}

/// Parse a front-matter payload.  The payload is kept in the error so the
/// caller can report what failed.
pub fn parse_front_matter(payload: &str) -> (r: Result<FrontMatter, ConvError>)
    ensures
        match r {
            Result::Ok(fm) => fm_parse(payload@) == Option::Some(fm@),
            Result::Err(e) => {
                &&& fm_parse(payload@) is None
                &&& e matches ConvError::FrontMatter(p) && p@ == payload@
            },
        },
{
    let chars = str_to_chars(payload);
    let t = pad_trim_x(&chars);
    let n = t.len();
    let mut acc = FmAcc {
        title: Option::None,
        tags: Option::None,
        author: Option::None,
        avatar: Option::None,
    };
    let mut i: usize = 0;
    proof {
        assert(acc_view(&acc) == fm_acc_empty());
    }
    while i < n
        invariant
            i <= n,
            n == t@.len(),
            t@ == pad_trim(payload@),
            fm_from(t@, i as int, acc_view(&acc)) == fm_parse(payload@),
        decreases n - i,
    {
        let ghost i0g = i as int;
        let ghost acc0 = acc_view(&acc);
        let ll = line_len_x(&t, i);
        let lend = i + ll;
        let mut line: Vec<char> = Vec::new();
        let mut q: usize = i;
        while q < lend
            invariant
                i <= q <= lend,
                lend <= t@.len(),
                lend == i + ll,
                n == t@.len(),
                line@ == t@.subrange(i as int, q as int),
            decreases lend - q,
        {
            line.push(t[q]);
            q = q + 1;
            proof {
                assert(line@ =~= t@.subrange(i as int, q as int));
            }
        }
        proof {
            assert(line@ == t@.subrange(i0g, i0g + line_len(t@, i0g)));
        }
        match line_parse_x(&line) {
            Line::Bad => {
                return Result::Err(ConvError::FrontMatter(payload.to_owned()));
            },
            Line::Blank => {},
            Line::Kv(k, v) => {
                match fm_apply_x(acc, k, v) {
                    Option::Some(a2) => {
                        acc = a2;
                    },
                    Option::None => {
                        return Result::Err(ConvError::FrontMatter(payload.to_owned()));
                    },
                }
            },
        }
        if ll >= n - i {
            i = n;
        } else {
            i = i + ll + 1;
        }
        proof {
            let nxt: int = if i0g + line_len(t@, i0g) + 1 <= t@.len() {
                i0g + line_len(t@, i0g) + 1
            } else {
                t@.len() as int
            };
            assert(i as int == nxt);
            assert(fm_from(t@, i0g, acc0) == fm_from(t@, nxt, acc_view(&acc)));
        }
    }
    match (acc.title, acc.tags, acc.author, acc.avatar) {
        (Option::Some(title), Option::Some(tags), Option::Some(author), Option::Some(avatar)) => {
            Result::Ok(FrontMatter { title, tags, author, avatar })
        },
        _ => Result::Err(ConvError::FrontMatter(payload.to_owned())),
    }
}

} // verus!
