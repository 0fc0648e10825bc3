//! The literal-text substitution pipeline: two independent, ordered token
//! tables rewrite literal text.  Typography tokens such as `(c)` or `...`
//! become their symbols anywhere in the text; emoticon tokens such as `:)`
//! become emoji, but only when bounded by start or end of text or whitespace
//! on both sides.  Output is built by copying untouched spans plus
//! replacement text in one forward pass over the original string.

use vstd::prelude::*;

verus! {

use vstd::string::StringExecFns;
use crate::text::{str_to_chars, push_char, is_ws, is_whitespace};
use crate::err::ConvError;

/// The typography token, if any, that stands at the head of `s`: its length
/// and the symbol that replaces it.
pub open spec fn typo_match(s: Seq<char>) -> Option<(int, char)> {
    if s.len() >= 3 && s[0] == '(' && s[1] == 'c' && s[2] == ')' {
        Option::Some((3 as int, '\u{a9}'))
    } else if s.len() >= 3 && s[0] == '(' && s[1] == 'C' && s[2] == ')' {
        Option::Some((3 as int, '\u{a9}'))
    } else if s.len() >= 4 && s[0] == '(' && s[1] == 't' && s[2] == 'm' && s[3] == ')' {
        Option::Some((4 as int, '\u{2122}'))
    } else if s.len() >= 4 && s[0] == '(' && s[1] == 'T' && s[2] == 'M' && s[3] == ')' {
        Option::Some((4 as int, '\u{2122}'))
    } else if s.len() >= 3 && s[0] == '(' && s[1] == 'r' && s[2] == ')' {
        Option::Some((3 as int, '\u{ae}'))
    } else if s.len() >= 3 && s[0] == '(' && s[1] == 'R' && s[2] == ')' {
        Option::Some((3 as int, '\u{ae}'))
    } else if s.len() >= 3 && s[0] == '(' && s[1] == 'p' && s[2] == ')' {
        Option::Some((3 as int, '\u{2117}'))
    } else if s.len() >= 3 && s[0] == '(' && s[1] == 'P' && s[2] == ')' {
        Option::Some((3 as int, '\u{2117}'))
    } else if s.len() >= 2 && s[0] == '+' && s[1] == '-' {
        Option::Some((2 as int, '\u{b1}'))
    } else if s.len() >= 3 && s[0] == '.' && s[1] == '.' && s[2] == '.' {
        Option::Some((3 as int, '\u{2026}'))
    } else {
        Option::None
    }
}

/// Typography substitution over a whole text: find the non-overlapping
/// token matches left to right and replace each with its symbol.
pub open spec fn subst_typo(s: Seq<char>) -> Seq<char>
    decreases s.len(),
{
    if s.len() == 0 {
        Seq::empty()
    } else {
        match typo_match(s) {
            Option::Some((l, r)) => seq![r] + subst_typo(s.subrange(l, s.len() as int)),
            Option::None => seq![s[0]] + subst_typo(s.drop_first()),
        }
    }
}

fn typo_at(v: &Vec<char>, i: usize, n: usize) -> (r: Option<(usize, char)>)
    requires
        n == v@.len(),
        i < n,
    ensures
        match r {
            Option::Some((l, c)) => {
                &&& typo_match(v@.subrange(i as int, n as int)) == Option::Some((l as int, c))
                &&& 2 <= l <= n - i
            },
            Option::None => typo_match(v@.subrange(i as int, n as int)) is None,
        },
{
    proof {
        let suf = v@.subrange(i as int, n as int);
        assert(forall|k: int| 0 <= k < suf.len() ==> suf[k] == v@[i + k]);
    }
    if n - i >= 3 && v[i] == '(' && v[i + 1] == 'c' && v[i + 2] == ')' {
        Option::Some((3, '\u{a9}'))
    } else if n - i >= 3 && v[i] == '(' && v[i + 1] == 'C' && v[i + 2] == ')' {
        Option::Some((3, '\u{a9}'))
    } else if n - i >= 4 && v[i] == '(' && v[i + 1] == 't' && v[i + 2] == 'm' && v[i + 3] == ')' {
        Option::Some((4, '\u{2122}'))
    } else if n - i >= 4 && v[i] == '(' && v[i + 1] == 'T' && v[i + 2] == 'M' && v[i + 3] == ')' {
        Option::Some((4, '\u{2122}'))
    } else if n - i >= 3 && v[i] == '(' && v[i + 1] == 'r' && v[i + 2] == ')' {
        Option::Some((3, '\u{ae}'))
    } else if n - i >= 3 && v[i] == '(' && v[i + 1] == 'R' && v[i + 2] == ')' {
        Option::Some((3, '\u{ae}'))
    } else if n - i >= 3 && v[i] == '(' && v[i + 1] == 'p' && v[i + 2] == ')' {
        Option::Some((3, '\u{2117}'))
    } else if n - i >= 3 && v[i] == '(' && v[i + 1] == 'P' && v[i + 2] == ')' {
        Option::Some((3, '\u{2117}'))
    } else if n - i >= 2 && v[i] == '+' && v[i + 1] == '-' {
        Option::Some((2, '\u{b1}'))
    } else if n - i >= 3 && v[i] == '.' && v[i + 1] == '.' && v[i + 2] == '.' {
        Option::Some((3, '\u{2026}'))
    } else {
        Option::None
    }
}

/// Apply the typography table over the whole text.
pub fn replace_typographer(text: &str) -> (r: String)
    ensures
        r@ == subst_typo(text@),
{
    let chars = str_to_chars(text);
    let n = chars.len();
    let mut out = String::new();
    let mut i: usize = 0;
    proof {
        assert(text@.subrange(0, n as int) =~= text@);
        assert(out@ + subst_typo(text@) =~= subst_typo(text@));
    }
    while i < n
        invariant
            i <= n,
            n == text@.len(),
            chars@ == text@,
            out@ + subst_typo(text@.subrange(i as int, n as int)) == subst_typo(text@),
        decreases n - i,
    {
        let ghost suf = text@.subrange(i as int, n as int);
        let ghost out0 = out@;
        match typo_at(&chars, i, n) {
            Option::Some((l, c)) => {
                push_char(&mut out, c);
                i = i + l;
                proof {
                    assert(suf.subrange(l as int, suf.len() as int) =~= text@.subrange(
                        i as int,
                        n as int,
                    ));
                    assert(out@ =~= out0 + seq![c]);
                    assert(out0 + (seq![c] + subst_typo(text@.subrange(i as int, n as int))) =~= (
                    out0 + seq![c]) + subst_typo(text@.subrange(i as int, n as int)));
                }
            },
            Option::None => {
                let c = chars[i];
                push_char(&mut out, c);
                i = i + 1;
                proof {
                    assert(suf[0] == c);
                    assert(suf.drop_first() =~= text@.subrange(i as int, n as int));
                    assert(out@ =~= out0 + seq![c]);
                    assert(out0 + (seq![c] + subst_typo(text@.subrange(i as int, n as int))) =~= (
                    out0 + seq![c]) + subst_typo(text@.subrange(i as int, n as int)));
                }
            },
        }
    }
    proof {
        assert(text@.subrange(n as int, n as int).len() == 0);
        assert(out@ + subst_typo(text@.subrange(n as int, n as int)) =~= out@);
    }
    out
}

/// What `emojis::get_by_shortcode` knows: the emoji text for a GitHub
/// shortcode, where one exists.
pub uninterp spec fn emoji_of(shortcode: Seq<char>) -> Option<Seq<char>>;

/// Relies on `emojis::get_by_shortcode` and `emojis::Emoji::as_str`: a fixed
/// lookup from GitHub shortcode to the emoji's text.
#[verifier::external_body]
fn emoji_by_shortcode(s: &str) -> (r: Option<String>)
    ensures
        match r {
            Option::Some(g) => emoji_of(s@) == Option::Some(g@),
            Option::None => emoji_of(s@) == Option::<Seq<char>>::None,
        },
{
    emojis::get_by_shortcode(s).map(|e| String::from(e.as_str()))
}

/// The emoticon token, if any, that stands at the head of `s`: its length
/// and the shortcode of the emoji it names.  No token is a prefix of another,
/// so at most one can match.
pub open spec fn emo_match(s: Seq<char>) -> Option<(int, Seq<char>)> {
    if s.len() >= 3 && s[0] == '>' && s[1] == ':' && s[2] == '(' {
        Option::Some((3 as int, "angry"@))
    } else if s.len() >= 4 && s[0] == '>' && s[1] == ':' && s[2] == '-' && s[3] == '(' {
        Option::Some((4 as int, "angry"@))
    } else if s.len() >= 3 && s[0] == ':' && s[1] == '"' && s[2] == ')' {
        Option::Some((3 as int, "blush"@))
    } else if s.len() >= 4 && s[0] == ':' && s[1] == '-' && s[2] == '"' && s[3] == ')' {
        Option::Some((4 as int, "blush"@))
    } else if s.len() >= 3 && s[0] == '<' && s[1] == '/' && s[2] == '3' {
        Option::Some((3 as int, "broken_heart"@))
    } else if s.len() >= 3 && s[0] == '<' && s[1] == '\\' && s[2] == '3' {
        Option::Some((3 as int, "broken_heart"@))
    } else if s.len() >= 2 && s[0] == ':' && s[1] == '/' {
        Option::Some((2 as int, "confused"@))
    } else if s.len() >= 3 && s[0] == ':' && s[1] == '-' && s[2] == '/' {
        Option::Some((3 as int, "confused"@))
    } else if s.len() >= 3 && s[0] == ':' && s[1] == '\'' && s[2] == '(' {
        Option::Some((3 as int, "cry"@))
    } else if s.len() >= 4 && s[0] == ':' && s[1] == '\'' && s[2] == '-' && s[3] == '(' {
        Option::Some((4 as int, "cry"@))
    } else if s.len() >= 3 && s[0] == ':' && s[1] == ',' && s[2] == '(' {
        Option::Some((3 as int, "cry"@))
    } else if s.len() >= 4 && s[0] == ':' && s[1] == ',' && s[2] == '-' && s[3] == '(' {
        Option::Some((4 as int, "cry"@))
    } else if s.len() >= 2 && s[0] == ':' && s[1] == '(' {
        Option::Some((2 as int, "frowning"@))
    } else if s.len() >= 3 && s[0] == ':' && s[1] == '-' && s[2] == '(' {
        Option::Some((3 as int, "frowning"@))
    } else if s.len() >= 2 && s[0] == '<' && s[1] == '3' {
        Option::Some((2 as int, "heart"@))
    } else if s.len() >= 3 && s[0] == ']' && s[1] == ':' && s[2] == '(' {
        Option::Some((3 as int, "imp"@))
    } else if s.len() >= 4 && s[0] == ']' && s[1] == ':' && s[2] == '-' && s[3] == '(' {
        Option::Some((4 as int, "imp"@))
    } else if s.len() >= 3 && s[0] == 'o' && s[1] == ':' && s[2] == ')' {
        Option::Some((3 as int, "innocent"@))
    } else if s.len() >= 3 && s[0] == 'O' && s[1] == ':' && s[2] == ')' {
        Option::Some((3 as int, "innocent"@))
    } else if s.len() >= 4 && s[0] == 'o' && s[1] == ':' && s[2] == '-' && s[3] == ')' {
        Option::Some((4 as int, "innocent"@))
    } else if s.len() >= 4 && s[0] == 'O' && s[1] == ':' && s[2] == '-' && s[3] == ')' {
        Option::Some((4 as int, "innocent"@))
    } else if s.len() >= 3 && s[0] == '0' && s[1] == ':' && s[2] == ')' {
        Option::Some((3 as int, "innocent"@))
    } else if s.len() >= 4 && s[0] == '0' && s[1] == ':' && s[2] == '-' && s[3] == ')' {
        Option::Some((4 as int, "innocent"@))
    } else if s.len() >= 3 && s[0] == ':' && s[1] == '\'' && s[2] == ')' {
        Option::Some((3 as int, "joy"@))
    } else if s.len() >= 4 && s[0] == ':' && s[1] == '\'' && s[2] == '-' && s[3] == ')' {
        Option::Some((4 as int, "joy"@))
    } else if s.len() >= 3 && s[0] == ':' && s[1] == ',' && s[2] == ')' {
        Option::Some((3 as int, "joy"@))
    } else if s.len() >= 4 && s[0] == ':' && s[1] == ',' && s[2] == '-' && s[3] == ')' {
        Option::Some((4 as int, "joy"@))
    } else if s.len() >= 3 && s[0] == ':' && s[1] == '\'' && s[2] == 'D' {
        Option::Some((3 as int, "joy"@))
    } else if s.len() >= 4 && s[0] == ':' && s[1] == '\'' && s[2] == '-' && s[3] == 'D' {
        Option::Some((4 as int, "joy"@))
    } else if s.len() >= 3 && s[0] == ':' && s[1] == ',' && s[2] == 'D' {
        Option::Some((3 as int, "joy"@))
    } else if s.len() >= 4 && s[0] == ':' && s[1] == ',' && s[2] == '-' && s[3] == 'D' {
        Option::Some((4 as int, "joy"@))
    } else if s.len() >= 2 && s[0] == ':' && s[1] == '*' {
        Option::Some((2 as int, "kissing"@))
    } else if s.len() >= 3 && s[0] == ':' && s[1] == '-' && s[2] == '*' {
        Option::Some((3 as int, "kissing"@))
    } else if s.len() >= 3 && s[0] == 'x' && s[1] == '-' && s[2] == ')' {
        Option::Some((3 as int, "laughing"@))
    } else if s.len() >= 3 && s[0] == 'X' && s[1] == '-' && s[2] == ')' {
        Option::Some((3 as int, "laughing"@))
    } else if s.len() >= 2 && s[0] == ':' && s[1] == '|' {
        Option::Some((2 as int, "neutral_face"@))
    } else if s.len() >= 3 && s[0] == ':' && s[1] == '-' && s[2] == '|' {
        Option::Some((3 as int, "neutral_face"@))
    } else if s.len() >= 2 && s[0] == ':' && s[1] == 'o' {
        Option::Some((2 as int, "open_mouth"@))
    } else if s.len() >= 3 && s[0] == ':' && s[1] == '-' && s[2] == 'o' {
        Option::Some((3 as int, "open_mouth"@))
    } else if s.len() >= 2 && s[0] == ':' && s[1] == 'O' {
        Option::Some((2 as int, "open_mouth"@))
    } else if s.len() >= 3 && s[0] == ':' && s[1] == '-' && s[2] == 'O' {
        Option::Some((3 as int, "open_mouth"@))
    } else if s.len() >= 2 && s[0] == ':' && s[1] == '@' {
        Option::Some((2 as int, "rage"@))
    } else if s.len() >= 3 && s[0] == ':' && s[1] == '-' && s[2] == '@' {
        Option::Some((3 as int, "rage"@))
    } else if s.len() >= 2 && s[0] == ':' && s[1] == 'D' {
        Option::Some((2 as int, "smile"@))
    } else if s.len() >= 3 && s[0] == ':' && s[1] == '-' && s[2] == 'D' {
        Option::Some((3 as int, "smile"@))
    } else if s.len() >= 2 && s[0] == ':' && s[1] == ')' {
        Option::Some((2 as int, "smiley"@))
    } else if s.len() >= 3 && s[0] == ':' && s[1] == '-' && s[2] == ')' {
        Option::Some((3 as int, "smiley"@))
    } else if s.len() >= 3 && s[0] == ']' && s[1] == ':' && s[2] == ')' {
        Option::Some((3 as int, "smiling_imp"@))
    } else if s.len() >= 4 && s[0] == ']' && s[1] == ':' && s[2] == '-' && s[3] == ')' {
        Option::Some((4 as int, "smiling_imp"@))
    } else if s.len() >= 4 && s[0] == ':' && s[1] == ',' && s[2] == '\'' && s[3] == '(' {
        Option::Some((4 as int, "sob"@))
    } else if s.len() >= 5 && s[0] == ':' && s[1] == ',' && s[2] == '\'' && s[3] == '-' && s[4] == '(' {
        Option::Some((5 as int, "sob"@))
    } else if s.len() >= 2 && s[0] == ';' && s[1] == '(' {
        Option::Some((2 as int, "sob"@))
    } else if s.len() >= 3 && s[0] == ';' && s[1] == '-' && s[2] == '(' {
        Option::Some((3 as int, "sob"@))
    } else if s.len() >= 2 && s[0] == ':' && s[1] == 'P' {
        Option::Some((2 as int, "stuck_out_tongue"@))
    } else if s.len() >= 3 && s[0] == ':' && s[1] == '-' && s[2] == 'P' {
        Option::Some((3 as int, "stuck_out_tongue"@))
    } else if s.len() >= 3 && s[0] == '8' && s[1] == '-' && s[2] == ')' {
        Option::Some((3 as int, "sunglasses"@))
    } else if s.len() >= 3 && s[0] == 'B' && s[1] == '-' && s[2] == ')' {
        Option::Some((3 as int, "sunglasses"@))
    } else if s.len() >= 3 && s[0] == ',' && s[1] == ':' && s[2] == '(' {
        Option::Some((3 as int, "sweat"@))
    } else if s.len() >= 4 && s[0] == ',' && s[1] == ':' && s[2] == '-' && s[3] == '(' {
        Option::Some((4 as int, "sweat"@))
    } else if s.len() >= 3 && s[0] == ',' && s[1] == ':' && s[2] == ')' {
        Option::Some((3 as int, "sweat_smile"@))
    } else if s.len() >= 4 && s[0] == ',' && s[1] == ':' && s[2] == '-' && s[3] == ')' {
        Option::Some((4 as int, "sweat_smile"@))
    } else if s.len() >= 2 && s[0] == ':' && s[1] == 's' {
        Option::Some((2 as int, "unamused"@))
    } else if s.len() >= 3 && s[0] == ':' && s[1] == '-' && s[2] == 'S' {
        Option::Some((3 as int, "unamused"@))
    } else if s.len() >= 2 && s[0] == ':' && s[1] == 'z' {
        Option::Some((2 as int, "unamused"@))
    } else if s.len() >= 3 && s[0] == ':' && s[1] == '-' && s[2] == 'Z' {
        Option::Some((3 as int, "unamused"@))
    } else if s.len() >= 2 && s[0] == ':' && s[1] == '$' {
        Option::Some((2 as int, "unamused"@))
    } else if s.len() >= 3 && s[0] == ':' && s[1] == '-' && s[2] == '$' {
        Option::Some((3 as int, "unamused"@))
    } else if s.len() >= 2 && s[0] == ';' && s[1] == ')' {
        Option::Some((2 as int, "wink"@))
    } else if s.len() >= 3 && s[0] == ';' && s[1] == '-' && s[2] == ')' {
        Option::Some((3 as int, "wink"@))
    } else {
        Option::None
    }
}

fn emo_at(v: &Vec<char>, i: usize, n: usize) -> (r: Option<(usize, &'static str)>)
    requires
        n == v@.len(),
        i < n,
    ensures
        match r {
            Option::Some((l, sc)) => {
                &&& emo_match(v@.subrange(i as int, n as int)) == Option::Some((l as int, sc@))
                &&& 2 <= l <= n - i
            },
            Option::None => emo_match(v@.subrange(i as int, n as int)) is None,
        },
{
    proof {
        let suf = v@.subrange(i as int, n as int);
        assert(forall|k: int| 0 <= k < suf.len() ==> suf[k] == v@[i + k]);
    }
    if n - i >= 3 && v[i + 0] == '>' && v[i + 1] == ':' && v[i + 2] == '(' {
        Option::Some((3, "angry"))
    } else if n - i >= 4 && v[i + 0] == '>' && v[i + 1] == ':' && v[i + 2] == '-' && v[i + 3] == '(' {
        Option::Some((4, "angry"))
    } else if n - i >= 3 && v[i + 0] == ':' && v[i + 1] == '"' && v[i + 2] == ')' {
        Option::Some((3, "blush"))
    } else if n - i >= 4 && v[i + 0] == ':' && v[i + 1] == '-' && v[i + 2] == '"' && v[i + 3] == ')' {
        Option::Some((4, "blush"))
    } else if n - i >= 3 && v[i + 0] == '<' && v[i + 1] == '/' && v[i + 2] == '3' {
        Option::Some((3, "broken_heart"))
    } else if n - i >= 3 && v[i + 0] == '<' && v[i + 1] == '\\' && v[i + 2] == '3' {
        Option::Some((3, "broken_heart"))
    } else if n - i >= 2 && v[i + 0] == ':' && v[i + 1] == '/' {
        Option::Some((2, "confused"))
    } else if n - i >= 3 && v[i + 0] == ':' && v[i + 1] == '-' && v[i + 2] == '/' {
        Option::Some((3, "confused"))
    } else if n - i >= 3 && v[i + 0] == ':' && v[i + 1] == '\'' && v[i + 2] == '(' {
        Option::Some((3, "cry"))
    } else if n - i >= 4 && v[i + 0] == ':' && v[i + 1] == '\'' && v[i + 2] == '-' && v[i + 3] == '(' {
        Option::Some((4, "cry"))
    } else if n - i >= 3 && v[i + 0] == ':' && v[i + 1] == ',' && v[i + 2] == '(' {
        Option::Some((3, "cry"))
    } else if n - i >= 4 && v[i + 0] == ':' && v[i + 1] == ',' && v[i + 2] == '-' && v[i + 3] == '(' {
        Option::Some((4, "cry"))
    } else if n - i >= 2 && v[i + 0] == ':' && v[i + 1] == '(' {
        Option::Some((2, "frowning"))
    } else if n - i >= 3 && v[i + 0] == ':' && v[i + 1] == '-' && v[i + 2] == '(' {
        Option::Some((3, "frowning"))
    } else if n - i >= 2 && v[i + 0] == '<' && v[i + 1] == '3' {
        Option::Some((2, "heart"))
    } else if n - i >= 3 && v[i + 0] == ']' && v[i + 1] == ':' && v[i + 2] == '(' {
        Option::Some((3, "imp"))
    } else if n - i >= 4 && v[i + 0] == ']' && v[i + 1] == ':' && v[i + 2] == '-' && v[i + 3] == '(' {
        Option::Some((4, "imp"))
    } else if n - i >= 3 && v[i + 0] == 'o' && v[i + 1] == ':' && v[i + 2] == ')' {
        Option::Some((3, "innocent"))
    } else if n - i >= 3 && v[i + 0] == 'O' && v[i + 1] == ':' && v[i + 2] == ')' {
        Option::Some((3, "innocent"))
    } else if n - i >= 4 && v[i + 0] == 'o' && v[i + 1] == ':' && v[i + 2] == '-' && v[i + 3] == ')' {
        Option::Some((4, "innocent"))
    } else if n - i >= 4 && v[i + 0] == 'O' && v[i + 1] == ':' && v[i + 2] == '-' && v[i + 3] == ')' {
        Option::Some((4, "innocent"))
    } else if n - i >= 3 && v[i + 0] == '0' && v[i + 1] == ':' && v[i + 2] == ')' {
        Option::Some((3, "innocent"))
    } else if n - i >= 4 && v[i + 0] == '0' && v[i + 1] == ':' && v[i + 2] == '-' && v[i + 3] == ')' {
        Option::Some((4, "innocent"))
    } else if n - i >= 3 && v[i + 0] == ':' && v[i + 1] == '\'' && v[i + 2] == ')' {
        Option::Some((3, "joy"))
    } else if n - i >= 4 && v[i + 0] == ':' && v[i + 1] == '\'' && v[i + 2] == '-' && v[i + 3] == ')' {
        Option::Some((4, "joy"))
    } else if n - i >= 3 && v[i + 0] == ':' && v[i + 1] == ',' && v[i + 2] == ')' {
        Option::Some((3, "joy"))
    } else if n - i >= 4 && v[i + 0] == ':' && v[i + 1] == ',' && v[i + 2] == '-' && v[i + 3] == ')' {
        Option::Some((4, "joy"))
    } else if n - i >= 3 && v[i + 0] == ':' && v[i + 1] == '\'' && v[i + 2] == 'D' {
        Option::Some((3, "joy"))
    } else if n - i >= 4 && v[i + 0] == ':' && v[i + 1] == '\'' && v[i + 2] == '-' && v[i + 3] == 'D' {
        Option::Some((4, "joy"))
    } else if n - i >= 3 && v[i + 0] == ':' && v[i + 1] == ',' && v[i + 2] == 'D' {
        Option::Some((3, "joy"))
    } else if n - i >= 4 && v[i + 0] == ':' && v[i + 1] == ',' && v[i + 2] == '-' && v[i + 3] == 'D' {
        Option::Some((4, "joy"))
    } else if n - i >= 2 && v[i + 0] == ':' && v[i + 1] == '*' {
        Option::Some((2, "kissing"))
    } else if n - i >= 3 && v[i + 0] == ':' && v[i + 1] == '-' && v[i + 2] == '*' {
        Option::Some((3, "kissing"))
    } else if n - i >= 3 && v[i + 0] == 'x' && v[i + 1] == '-' && v[i + 2] == ')' {
        Option::Some((3, "laughing"))
    } else if n - i >= 3 && v[i + 0] == 'X' && v[i + 1] == '-' && v[i + 2] == ')' {
        Option::Some((3, "laughing"))
    } else if n - i >= 2 && v[i + 0] == ':' && v[i + 1] == '|' {
        Option::Some((2, "neutral_face"))
    } else if n - i >= 3 && v[i + 0] == ':' && v[i + 1] == '-' && v[i + 2] == '|' {
        Option::Some((3, "neutral_face"))
    } else if n - i >= 2 && v[i + 0] == ':' && v[i + 1] == 'o' {
        Option::Some((2, "open_mouth"))
    } else if n - i >= 3 && v[i + 0] == ':' && v[i + 1] == '-' && v[i + 2] == 'o' {
        Option::Some((3, "open_mouth"))
    } else if n - i >= 2 && v[i + 0] == ':' && v[i + 1] == 'O' {
        Option::Some((2, "open_mouth"))
    } else if n - i >= 3 && v[i + 0] == ':' && v[i + 1] == '-' && v[i + 2] == 'O' {
        Option::Some((3, "open_mouth"))
    } else if n - i >= 2 && v[i + 0] == ':' && v[i + 1] == '@' {
        Option::Some((2, "rage"))
    } else if n - i >= 3 && v[i + 0] == ':' && v[i + 1] == '-' && v[i + 2] == '@' {
        Option::Some((3, "rage"))
    } else if n - i >= 2 && v[i + 0] == ':' && v[i + 1] == 'D' {
        Option::Some((2, "smile"))
    } else if n - i >= 3 && v[i + 0] == ':' && v[i + 1] == '-' && v[i + 2] == 'D' {
        Option::Some((3, "smile"))
    } else if n - i >= 2 && v[i + 0] == ':' && v[i + 1] == ')' {
        Option::Some((2, "smiley"))
    } else if n - i >= 3 && v[i + 0] == ':' && v[i + 1] == '-' && v[i + 2] == ')' {
        Option::Some((3, "smiley"))
    } else if n - i >= 3 && v[i + 0] == ']' && v[i + 1] == ':' && v[i + 2] == ')' {
        Option::Some((3, "smiling_imp"))
    } else if n - i >= 4 && v[i + 0] == ']' && v[i + 1] == ':' && v[i + 2] == '-' && v[i + 3] == ')' {
        Option::Some((4, "smiling_imp"))
    } else if n - i >= 4 && v[i + 0] == ':' && v[i + 1] == ',' && v[i + 2] == '\'' && v[i + 3] == '(' {
        Option::Some((4, "sob"))
    } else if n - i >= 5 && v[i + 0] == ':' && v[i + 1] == ',' && v[i + 2] == '\'' && v[i + 3] == '-' && v[i + 4] == '(' {
        Option::Some((5, "sob"))
    } else if n - i >= 2 && v[i + 0] == ';' && v[i + 1] == '(' {
        Option::Some((2, "sob"))
    } else if n - i >= 3 && v[i + 0] == ';' && v[i + 1] == '-' && v[i + 2] == '(' {
        Option::Some((3, "sob"))
    } else if n - i >= 2 && v[i + 0] == ':' && v[i + 1] == 'P' {
        Option::Some((2, "stuck_out_tongue"))
    } else if n - i >= 3 && v[i + 0] == ':' && v[i + 1] == '-' && v[i + 2] == 'P' {
        Option::Some((3, "stuck_out_tongue"))
    } else if n - i >= 3 && v[i + 0] == '8' && v[i + 1] == '-' && v[i + 2] == ')' {
        Option::Some((3, "sunglasses"))
    } else if n - i >= 3 && v[i + 0] == 'B' && v[i + 1] == '-' && v[i + 2] == ')' {
        Option::Some((3, "sunglasses"))
    } else if n - i >= 3 && v[i + 0] == ',' && v[i + 1] == ':' && v[i + 2] == '(' {
        Option::Some((3, "sweat"))
    } else if n - i >= 4 && v[i + 0] == ',' && v[i + 1] == ':' && v[i + 2] == '-' && v[i + 3] == '(' {
        Option::Some((4, "sweat"))
    } else if n - i >= 3 && v[i + 0] == ',' && v[i + 1] == ':' && v[i + 2] == ')' {
        Option::Some((3, "sweat_smile"))
    } else if n - i >= 4 && v[i + 0] == ',' && v[i + 1] == ':' && v[i + 2] == '-' && v[i + 3] == ')' {
        Option::Some((4, "sweat_smile"))
    } else if n - i >= 2 && v[i + 0] == ':' && v[i + 1] == 's' {
        Option::Some((2, "unamused"))
    } else if n - i >= 3 && v[i + 0] == ':' && v[i + 1] == '-' && v[i + 2] == 'S' {
        Option::Some((3, "unamused"))
    } else if n - i >= 2 && v[i + 0] == ':' && v[i + 1] == 'z' {
        Option::Some((2, "unamused"))
    } else if n - i >= 3 && v[i + 0] == ':' && v[i + 1] == '-' && v[i + 2] == 'Z' {
        Option::Some((3, "unamused"))
    } else if n - i >= 2 && v[i + 0] == ':' && v[i + 1] == '$' {
        Option::Some((2, "unamused"))
    } else if n - i >= 3 && v[i + 0] == ':' && v[i + 1] == '-' && v[i + 2] == '$' {
        Option::Some((3, "unamused"))
    } else if n - i >= 2 && v[i + 0] == ';' && v[i + 1] == ')' {
        Option::Some((2, "wink"))
    } else if n - i >= 3 && v[i + 0] == ';' && v[i + 1] == '-' && v[i + 2] == ')' {
        Option::Some((3, "wink"))
    } else {
        Option::None
    }
}

/// Emoticon substitution over a whole text.  `prev_ws` says whether the
/// position follows start-of-text or whitespace; a token is replaced only
/// when it is bounded on both sides by start/end of text or whitespace.  A
/// matched token whose shortcode names no emoji is an error carrying that
/// shortcode.
pub open spec fn subst_emo(s: Seq<char>, prev_ws: bool) -> Result<Seq<char>, Seq<char>>
    decreases s.len(),
{
    if s.len() == 0 {
        Result::Ok(Seq::empty())
    } else {
        match emo_match(s) {
            Option::Some((l, sc)) => {
                if prev_ws && (s.len() == l || is_ws(s[l])) {
                    match emoji_of(sc) {
                        Option::Some(g) => match subst_emo(s.subrange(l, s.len() as int), false) {
                            Result::Ok(rest) => Result::Ok(g + rest),
                            Result::Err(e) => Result::Err(e),
                        },
                        Option::None => Result::Err(sc),
                    }
                } else {
                    match subst_emo(s.drop_first(), is_ws(s[0])) {
                        Result::Ok(rest) => Result::Ok(seq![s[0]] + rest),
                        Result::Err(e) => Result::Err(e),
                    }
                }
            },
            Option::None => match subst_emo(s.drop_first(), is_ws(s[0])) {
                Result::Ok(rest) => Result::Ok(seq![s[0]] + rest),
                Result::Err(e) => Result::Err(e),
            },
        }
    }
}

/// Apply the emoticon table over the whole text.
pub fn replace_emoticons(text: &str) -> (r: Result<String, ConvError>)
    ensures
        match r {
            Result::Ok(out) => subst_emo(text@, true) == Result::<Seq<char>, Seq<char>>::Ok(out@),
            Result::Err(e) => e matches ConvError::UnknownEmoticon(sc) && subst_emo(text@, true)
                == Result::<Seq<char>, Seq<char>>::Err(sc@),
        },
{
    let chars = str_to_chars(text);
    let n = chars.len();
    let mut out = String::new();
    let mut i: usize = 0;
    let mut prev_ws = true;
    proof {
        assert(text@.subrange(0, n as int) =~= text@);
        assert(out@ + Seq::<char>::empty() =~= out@);
    }
    while i < n
        invariant
            i <= n,
            n == text@.len(),
            chars@ == text@,
            match subst_emo(text@.subrange(i as int, n as int), prev_ws) {
                Result::Ok(v) => subst_emo(text@, true) == Result::<Seq<char>, Seq<char>>::Ok(
                    out@ + v,
                ),
                Result::Err(e) => subst_emo(text@, true) == Result::<Seq<char>, Seq<char>>::Err(e),
            },
        decreases n - i,
    {
        let ghost suf = text@.subrange(i as int, n as int);
        let ghost out0 = out@;
        if prev_ws {
            match emo_at(&chars, i, n) {
                Option::Some((l, sc)) => {
                    if i + l == n || is_whitespace(chars[i + l]) {
                        proof {
                            if (l as int) < suf.len() {
                                assert(suf[l as int] == text@[i + l]);
                            }
                            assert(suf.len() == l || is_ws(suf[l as int]));
                        }
                        match emoji_by_shortcode(sc) {
                            Option::Some(g) => {
                                out.append(g.as_str());
                                i = i + l;
                                prev_ws = false;
                                proof {
                                    assert(suf.subrange(l as int, suf.len() as int)
                                        =~= text@.subrange(i as int, n as int));
                                    assert(out@ =~= out0 + g@);
                                    match subst_emo(text@.subrange(i as int, n as int), false) {
                                        Result::Ok(v) => {
                                            assert(out0 + (g@ + v) =~= (out0 + g@) + v);
                                        },
                                        Result::Err(_) => {},
                                    }
                                }
                            },
                            Option::None => {
                                proof {
                                    assert(subst_emo(suf, true)
                                        == Result::<Seq<char>, Seq<char>>::Err(sc@));
                                }
                                return Result::Err(ConvError::UnknownEmoticon(sc.to_owned()));
                            },
                        }
                    } else {
            let c = chars[i];
            push_char(&mut out, c);
            let ws = is_whitespace(c);
            i = i + 1;
            proof {
                assert(suf[0] == c);
                assert(suf.drop_first() =~= text@.subrange(i as int, n as int));
                assert(out@ =~= out0 + seq![c]);
                match subst_emo(text@.subrange(i as int, n as int), is_ws(c)) {
                    Result::Ok(v) => {
                        assert(out0 + (seq![c] + v) =~= (out0 + seq![c]) + v);
                    },
                    Result::Err(_) => {},
                }
            }
            prev_ws = ws;
        }
                },
                Option::None => {
            let c = chars[i];
            push_char(&mut out, c);
            let ws = is_whitespace(c);
            i = i + 1;
            proof {
                assert(suf[0] == c);
                assert(suf.drop_first() =~= text@.subrange(i as int, n as int));
                assert(out@ =~= out0 + seq![c]);
                match subst_emo(text@.subrange(i as int, n as int), is_ws(c)) {
                    Result::Ok(v) => {
                        assert(out0 + (seq![c] + v) =~= (out0 + seq![c]) + v);
                    },
                    Result::Err(_) => {},
                }
            }
            prev_ws = ws;
        },
            }
        } else {
            let c = chars[i];
            push_char(&mut out, c);
            let ws = is_whitespace(c);
            i = i + 1;
            proof {
                assert(suf[0] == c);
                assert(suf.drop_first() =~= text@.subrange(i as int, n as int));
                assert(out@ =~= out0 + seq![c]);
                match subst_emo(text@.subrange(i as int, n as int), is_ws(c)) {
                    Result::Ok(v) => {
                        assert(out0 + (seq![c] + v) =~= (out0 + seq![c]) + v);
                    },
                    Result::Err(_) => {},
                }
            }
            prev_ws = ws;
        }
    }
    proof {
        assert(text@.subrange(n as int, n as int).len() == 0);
        assert(out@ + Seq::<char>::empty() =~= out@);
    }
    Result::Ok(out)
}


} // verus!
