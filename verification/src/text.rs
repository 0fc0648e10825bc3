//! Character and string utilities shared by the whole library: whitespace
//! classification, conversion between `&str` and `Vec<char>`, decimal
//! rendering of counters, and whitespace-delimited word counting.

use vstd::prelude::*;

verus! {

use vstd::string::StringExecFns;

/// The Unicode `White_Space` characters, as `char::is_whitespace` and the
/// `\s` character class document them.
pub open spec fn is_ws(c: char) -> bool {
    match c {
        '\u{0009}' | '\u{000A}' | '\u{000B}' | '\u{000C}' | '\u{000D}' | ' '
        | '\u{0085}' | '\u{00A0}' | '\u{1680}'
        | '\u{2000}' | '\u{2001}' | '\u{2002}' | '\u{2003}' | '\u{2004}'
        | '\u{2005}' | '\u{2006}' | '\u{2007}' | '\u{2008}' | '\u{2009}'
        | '\u{200A}' | '\u{2028}' | '\u{2029}' | '\u{202F}' | '\u{205F}'
        | '\u{3000}' => true,
        _ => false,
    }
}

/// Executable whitespace test, equal to the spec-level `is_ws`.
pub fn is_whitespace(c: char) -> (r: bool)
    ensures
        r == is_ws(c),
{
    match c {
        '\u{0009}' | '\u{000A}' | '\u{000B}' | '\u{000C}' | '\u{000D}' | ' '
        | '\u{0085}' | '\u{00A0}' | '\u{1680}'
        | '\u{2000}' | '\u{2001}' | '\u{2002}' | '\u{2003}' | '\u{2004}'
        | '\u{2005}' | '\u{2006}' | '\u{2007}' | '\u{2008}' | '\u{2009}'
        | '\u{200A}' | '\u{2028}' | '\u{2029}' | '\u{202F}' | '\u{205F}'
        | '\u{3000}' => true,
        _ => false,
    }
}

/// Collect the characters of a string slice into a vector, preserving the
/// character sequence exactly.
pub fn str_to_chars(s: &str) -> (r: Vec<char>)
    ensures
        r@ == s@,
{
    let n = s.unicode_len();
    let mut v: Vec<char> = Vec::new();
    let mut i: usize = 0;
    while i < n
        invariant
            n == s@.len(),
            i <= n,
            v@ == s@.subrange(0, i as int),
        decreases n - i,
    {
        v.push(s.get_char(i));
        i = i + 1;
        proof {
            assert(v@ =~= s@.subrange(0, i as int));
        }
    }
    proof {
        assert(v@ =~= s@);
    }
    v
}

/// Relies on `String::push`: appends one character to the string.
#[verifier::external_body]
pub(crate) fn push_char(s: &mut String, c: char)
    ensures
        final(s)@ == old(s)@.push(c),
{
    s.push(c)
}

/// Build a `String` whose character sequence is exactly the given vector.
pub fn chars_to_string(v: &Vec<char>) -> (r: String)
    ensures
        r@ == v@,
{
    let mut s = String::new();
    let mut i: usize = 0;
    while i < v.len()
        invariant
            i <= v@.len(),
            s@ == v@.subrange(0, i as int),
        decreases v@.len() - i,
    {
        push_char(&mut s, v[i]);
        i = i + 1;
        proof {
            assert(s@ =~= v@.subrange(0, i as int));
        }
    }
    proof {
        assert(s@ =~= v@);
    }
    s
}

/// The decimal digit character for a value below ten.
pub open spec fn digit_char(d: nat) -> char {
    if d == 0 { '0' }
    else if d == 1 { '1' }
    else if d == 2 { '2' }
    else if d == 3 { '3' }
    else if d == 4 { '4' }
    else if d == 5 { '5' }
    else if d == 6 { '6' }
    else if d == 7 { '7' }
    else if d == 8 { '8' }
    else { '9' }
}

/// The usual decimal rendering of a natural number, most significant digit
/// first, with no leading zeros (except for zero itself).
pub open spec fn dec_str(n: nat) -> Seq<char>
    decreases n,
{
    if n < 10 {
        seq![digit_char(n)]
    } else {
        dec_str(n / 10) + seq![digit_char(n % 10)]
    }
}

fn digit_to_char(d: usize) -> (r: char)
    requires
        d < 10,
    ensures
        r == digit_char(d as nat),
{
    match d {
        0 => '0',
        1 => '1',
        2 => '2',
        3 => '3',
        4 => '4',
        5 => '5',
        6 => '6',
        7 => '7',
        8 => '8',
        _ => '9',
    }
}

/// Render a machine integer in decimal.
pub fn usize_to_string(n: usize) -> (r: String)
    ensures
        r@ == dec_str(n as nat),
    decreases n,
{
    if n < 10 {
        let mut s = String::new();
        push_char(&mut s, digit_to_char(n));
        proof {
            assert(s@ =~= dec_str(n as nat));
        }
        s
    } else {
        let mut s = usize_to_string(n / 10);
        push_char(&mut s, digit_to_char(n % 10));
        proof {
            assert(s@ =~= dec_str(n as nat));
        }
        s
    }
}


/// The number of whitespace-delimited words in `s`, scanning left to right;
/// `prev_ws` says whether the previous character was whitespace (true at the
/// start of the text).
pub open spec fn wc_from(s: Seq<char>, prev_ws: bool) -> nat
    decreases s.len(),
{
    if s.len() == 0 {
        0
    } else {
        (if prev_ws && !is_ws(s[0]) {
            1nat
        } else {
            0nat
        }) + wc_from(s.drop_first(), is_ws(s[0]))
    }
}

/// The number of whitespace-delimited words in a text.
pub open spec fn word_count_of(s: Seq<char>) -> nat {
    wc_from(s, true)
}


/// Count the whitespace-delimited words of a text.
pub fn count_words(s: &str) -> (r: usize)
    ensures
        r as nat == word_count_of(s@),
{
    let chars = str_to_chars(s);
    let n = chars.len();
    let mut count: usize = 0;
    let mut prev_ws = true;
    let mut i: usize = 0;
    proof {
        assert(s@.subrange(0, n as int) =~= s@);
    }
    while i < n
        invariant
            i <= n,
            n == s@.len(),
            chars@ == s@,
            count <= i,
            count as nat + wc_from(s@.subrange(i as int, n as int), prev_ws) == word_count_of(s@),
        decreases n - i,
    {
        let ghost suf = s@.subrange(i as int, n as int);
        let c = chars[i];
        proof {
            assert(suf[0] == c);
            assert(suf.drop_first() =~= s@.subrange(i + 1, n as int));
        }
        let ws = is_whitespace(c);
        if prev_ws && !ws {
            count = count + 1;
        }
        prev_ws = ws;
        i = i + 1;
    }
    proof {
        assert(s@.subrange(n as int, n as int).len() == 0);
    }
    count
}


/// Replace every occurrence of a fixed pattern, scanning left to right over
/// the original text.
pub open spec fn subst_fixed(s: Seq<char>, pat: Seq<char>, rep: Seq<char>) -> Seq<char>
    decreases s.len(),
{
    if s.len() == 0 {
        s
    } else if 0 < pat.len() <= s.len() && s.subrange(0, pat.len() as int) == pat {
        rep + subst_fixed(s.subrange(pat.len() as int, s.len() as int), pat, rep)
    } else {
        seq![s[0]] + subst_fixed(s.drop_first(), pat, rep)
    }
}

fn starts_at(v: &Vec<char>, i: usize, pat: &Vec<char>) -> (r: bool)
    requires
        i <= v@.len(),
    ensures
        r == (pat@.len() <= v@.len() - i && v@.subrange(i as int, i + pat@.len()) == pat@),
{
    let n = v.len();
    let m = pat.len();
    if m > n - i {
        return false;
    }
    let mut j: usize = 0;
    while j < m
        invariant
            j <= m,
            m == pat@.len(),
            n == v@.len(),
            i + m <= n,
            forall|q: int| 0 <= q < j ==> v@[i + q] == pat@[q],
        decreases m - j,
    {
        if !(v[i + j] == pat[j]) {
            proof {
                assert(v@.subrange(i as int, i + pat@.len())[j as int] == v@[i + j]);
            }
            return false;
        }
        j = j + 1;
    }
    proof {
        assert(v@.subrange(i as int, i + pat@.len()) =~= pat@);
    }
    true
}

/// Replace every occurrence of `pat` with `rep`, in one forward pass.
pub fn replace_literal(s: &str, pat: &str, rep: &str) -> (r: String)
    ensures
        r@ == subst_fixed(s@, pat@, rep@),
{
    let chars = str_to_chars(s);
    let pchars = str_to_chars(pat);
    let n = chars.len();
    let m = pchars.len();
    let mut out = String::new();
    let mut i: usize = 0;
    proof {
        assert(s@.subrange(0, n as int) =~= s@);
        assert(out@ + subst_fixed(s@, pat@, rep@) =~= subst_fixed(s@, pat@, rep@));
    }
    while i < n
        invariant
            i <= n,
            n == s@.len(),
            m == pat@.len(),
            chars@ == s@,
            pchars@ == pat@,
            out@ + subst_fixed(s@.subrange(i as int, n as int), pat@, rep@) == subst_fixed(
                s@,
                pat@,
                rep@,
            ),
        decreases n - i,
    {
        let ghost suf = s@.subrange(i as int, n as int);
        let ghost out0 = out@;
        if m > 0 && starts_at(&chars, i, &pchars) {
            out.append(rep);
            i = i + m;
            proof {
                assert(suf.subrange(0, pat@.len() as int) =~= chars@.subrange(
                    i - m,
                    i - m + pat@.len(),
                ));
                assert(suf.subrange(pat@.len() as int, suf.len() as int) =~= s@.subrange(
                    i as int,
                    n as int,
                ));
                assert(out0 + (rep@ + subst_fixed(s@.subrange(i as int, n as int), pat@, rep@))
                    =~= (out0 + rep@) + subst_fixed(s@.subrange(i as int, n as int), pat@, rep@));
            }
        } else {
            let c = chars[i];
            push_char(&mut out, c);
            i = i + 1;
            proof {
                assert(suf[0] == c);
                if m > 0 && m <= suf.len() {
                    if suf.subrange(0, pat@.len() as int) == pat@ {
                        assert(suf.subrange(0, pat@.len() as int) =~= chars@.subrange(
                            i - 1,
                            i - 1 + pat@.len(),
                        ));
                        assert(false);
                    }
                }
                assert(suf.drop_first() =~= s@.subrange(i as int, n as int));
                assert(out@ =~= out0 + seq![c]);
                assert(out0 + (seq![c] + subst_fixed(s@.subrange(i as int, n as int), pat@, rep@))
                    =~= (out0 + seq![c]) + subst_fixed(
                    s@.subrange(i as int, n as int),
                    pat@,
                    rep@,
                ));
            }
        }
    }
    proof {
        assert(s@.subrange(n as int, n as int).len() == 0);
        assert(out@ + subst_fixed(s@.subrange(n as int, n as int), pat@, rep@) =~= out@);
    }
    out
}

/// The concatenation of a list of texts, in order.
pub open spec fn join_all(ss: Seq<Seq<char>>) -> Seq<char>
    decreases ss.len(),
{
    if ss.len() == 0 {
        Seq::empty()
    } else {
        join_all(ss.drop_last()) + ss.last()
    }
}

/// Concatenate a list of strings.
pub fn join_strings(v: &Vec<String>) -> (r: String)
    ensures
        r@ == join_all(v.deep_view()),
{
    let mut out = String::new();
    let mut i: usize = 0;
    while i < v.len()
        invariant
            i <= v@.len(),
            out@ == join_all(v.deep_view().subrange(0, i as int)),
        decreases v@.len() - i,
    {
        out.append(v[i].as_str());
        i = i + 1;
        proof {
            let pre = v.deep_view().subrange(0, i as int);
            assert(pre.drop_last() =~= v.deep_view().subrange(0, i - 1));
            assert(pre.last() == v@[i - 1]@);
            assert(out@ =~= join_all(pre));
        }
    }
    proof {
        assert(v.deep_view().subrange(0, v.deep_view().len() as int) =~= v.deep_view());
    }
    out
}

} // verus!
