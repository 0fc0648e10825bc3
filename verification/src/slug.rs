//! Slug generation for headings: the heading's visible text is collected,
//! extended-Latin letters and ligatures are folded to plain ASCII per a fixed
//! table, word separators become hyphens, the result is lowercased, characters
//! outside `[a-z0-9 _]` are collapsed to single hyphens, and outer hyphens are
//! trimmed.

use vstd::prelude::*;

verus! {

use crate::html::{Element, ElemV, elem_view, elems_view};
use crate::text::{str_to_chars, chars_to_string};

/// The character sequence a folded character expands to.
pub open spec fn pair_chars(r: (char, Option<char>)) -> Seq<char> {
    match r.1 {
        Option::None => seq![r.0],
        Option::Some(c2) => seq![r.0, c2],
    }
}

pub open spec fn fold_char(c: char) -> Seq<char> {
    match c {
        'A' | 'Ⓐ' | 'Ａ' | 'À' | 'Á' | 'Â' | 'Ầ' | 'Ấ' | 'Ẫ' | 'Ẩ' | 'Ã' | 'Ā' | 'Ă' | 'Ằ' | 'Ắ' | 'Ẵ' | 'Ẳ' | 'Ȧ' | 'Ǡ' | 'Ä' | 'Ǟ' | 'Ả' | 'Å' | 'Ǻ' | 'Ǎ' | 'Ȁ' | 'Ȃ' | 'Ạ' | 'Ậ' | 'Ặ' | 'Ḁ' | 'Ą' | 'Ⱥ' | 'Ɐ' => seq!['A'],
        'Ꜳ' => seq!['A', 'A'],
        'Æ' | 'Ǽ' | 'Ǣ' => seq!['A'],
        'Ꜵ' => seq!['A', 'O'],
        'Ꜷ' => seq!['A', 'U'],
        'Ꜹ' | 'Ꜻ' => seq!['A', 'V'],
        'Ꜽ' => seq!['A', 'Y'],
        'B' | 'Ⓑ' | 'Ｂ' | 'Ḃ' | 'Ḅ' | 'Ḇ' | 'Ƀ' | 'Ƃ' | 'Ɓ' => seq!['B'],
        'C' | 'Ⓒ' | 'Ｃ' | 'Ć' | 'Ĉ' | 'Ċ' | 'Č' | 'Ç' | 'Ḉ' | 'Ƈ' | 'Ȼ' | 'Ꜿ' => seq!['C'],
        'D' | 'Ⓓ' | 'Ｄ' | 'Ḋ' | 'Ď' | 'Ḍ' | 'Ḑ' | 'Ḓ' | 'Ḏ' | 'Đ' | 'Ƌ' | 'Ɗ' | 'Ɖ' | 'Ꝺ' => seq!['D'],
        'Ǳ' | 'Ǆ' => seq!['D', 'Z'],
        'ǲ' | 'ǅ' => seq!['D', 'z'],
        'E' | 'Ⓔ' | 'Ｅ' | 'È' | 'É' | 'Ê' | 'Ề' | 'Ế' | 'Ễ' | 'Ể' | 'Ẽ' | 'Ē' | 'Ḕ' | 'Ḗ' | 'Ĕ' | 'Ė' | 'Ë' | 'Ẻ' | 'Ě' | 'Ȅ' | 'Ȇ' | 'Ẹ' | 'Ệ' | 'Ȩ' | 'Ḝ' | 'Ę' | 'Ḙ' | 'Ḛ' | 'Ɛ' | 'Ǝ' => seq!['E'],
        'F' | 'Ⓕ' | 'Ｆ' | 'Ḟ' | 'Ƒ' | 'Ꝼ' => seq!['F'],
        'G' | 'Ⓖ' | 'Ｇ' | 'Ǵ' | 'Ĝ' | 'Ḡ' | 'Ğ' | 'Ġ' | 'Ǧ' | 'Ģ' | 'Ǥ' | 'Ɠ' | 'Ꞡ' | 'Ᵹ' | 'Ꝿ' => seq!['G'],
        'H' | 'Ⓗ' | 'Ｈ' | 'Ĥ' | 'Ḣ' | 'Ḧ' | 'Ȟ' | 'Ḥ' | 'Ḩ' | 'Ḫ' | 'Ħ' | 'Ⱨ' | 'Ⱶ' | 'Ɥ' => seq!['H'],
        'I' | 'Ⓘ' | 'Ｉ' | 'Ì' | 'Í' | 'Î' | 'Ĩ' | 'Ī' | 'Ĭ' | 'İ' | 'Ï' | 'Ḯ' | 'Ỉ' | 'Ǐ' | 'Ȉ' | 'Ȋ' | 'Ị' | 'Į' | 'Ḭ' | 'Ɨ' => seq!['I'],
        'J' | 'Ⓙ' | 'Ｊ' | 'Ĵ' | 'Ɉ' => seq!['J'],
        'K' | 'Ⓚ' | 'Ｋ' | 'Ḱ' | 'Ǩ' | 'Ḳ' | 'Ķ' | 'Ḵ' | 'Ƙ' | 'Ⱪ' | 'Ꝁ' | 'Ꝃ' | 'Ꝅ' | 'Ꞣ' => seq!['K'],
        'L' | 'Ⓛ' | 'Ｌ' | 'Ŀ' | 'Ĺ' | 'Ľ' | 'Ḷ' | 'Ḹ' | 'Ļ' | 'Ḽ' | 'Ḻ' | 'Ł' | 'Ƚ' | 'Ɫ' | 'Ⱡ' | 'Ꝉ' | 'Ꝇ' | 'Ꞁ' => seq!['L'],
        'Ǉ' => seq!['L', 'J'],
        'ǈ' => seq!['L', 'j'],
        'M' | 'Ⓜ' | 'Ｍ' | 'Ḿ' | 'Ṁ' | 'Ṃ' | 'Ɱ' | 'Ɯ' => seq!['M'],
        'N' | 'Ⓝ' | 'Ｎ' | 'Ǹ' | 'Ń' | 'Ñ' | 'Ṅ' | 'Ň' | 'Ṇ' | 'Ņ' | 'Ṋ' | 'Ṉ' | 'Ƞ' | 'Ɲ' | 'Ꞑ' | 'Ꞥ' => seq!['N'],
        'Ǌ' => seq!['N', 'J'],
        'ǋ' => seq!['N', 'j'],
        'O' | 'Ⓞ' | 'Ｏ' | 'Ò' | 'Ó' | 'Ô' | 'Ồ' | 'Ố' | 'Ỗ' | 'Ổ' | 'Õ' | 'Ṍ' | 'Ȭ' | 'Ṏ' | 'Ō' | 'Ṑ' | 'Ṓ' | 'Ŏ' | 'Ȯ' | 'Ȱ' | 'Ö' | 'Ȫ' | 'Ỏ' | 'Ő' | 'Ǒ' | 'Ȍ' | 'Ȏ' | 'Ơ' | 'Ờ' | 'Ớ' | 'Ỡ' | 'Ở' | 'Ợ' | 'Ọ' | 'Ộ' | 'Ǫ' | 'Ǭ' | 'Ø' | 'Ǿ' | 'Ɔ' | 'Ɵ' | 'Ꝋ' | 'Ꝍ' => seq!['O'],
        'Ƣ' => seq!['O', 'I'],
        'Ꝏ' => seq!['O', 'O'],
        'Ȣ' => seq!['O', 'U'],
        '\u{008C}' | 'Œ' => seq!['O', 'E'],
        '\u{009C}' | 'œ' => seq!['o', 'e'],
        'P' | 'Ⓟ' | 'Ｐ' | 'Ṕ' | 'Ṗ' | 'Ƥ' | 'Ᵽ' | 'Ꝑ' | 'Ꝓ' | 'Ꝕ' => seq!['P'],
        'Q' | 'Ⓠ' | 'Ｑ' | 'Ꝗ' | 'Ꝙ' | 'Ɋ' => seq!['Q'],
        'R' | 'Ⓡ' | 'Ｒ' | 'Ŕ' | 'Ṙ' | 'Ř' | 'Ȑ' | 'Ȓ' | 'Ṛ' | 'Ṝ' | 'Ŗ' | 'Ṟ' | 'Ɍ' | 'Ɽ' | 'Ꝛ' | 'Ꞧ' | 'Ꞃ' => seq!['R'],
        'S' | 'Ⓢ' | 'Ｓ' | 'ẞ' | 'Ś' | 'Ṥ' | 'Ŝ' | 'Ṡ' | 'Š' | 'Ṧ' | 'Ṣ' | 'Ṩ' | 'Ș' | 'Ş' | 'Ȿ' | 'Ꞩ' | 'Ꞅ' => seq!['S'],
        'T' | 'Ⓣ' | 'Ｔ' | 'Ṫ' | 'Ť' | 'Ṭ' | 'Ț' | 'Ţ' | 'Ṱ' | 'Ṯ' | 'Ŧ' | 'Ƭ' | 'Ʈ' | 'Ⱦ' | 'Ꞇ' => seq!['T'],
        'Ꜩ' => seq!['T', 'Z'],
        'U' | 'Ⓤ' | 'Ｕ' | 'Ù' | 'Ú' | 'Û' | 'Ũ' | 'Ṹ' | 'Ū' | 'Ṻ' | 'Ŭ' | 'Ü' | 'Ǜ' | 'Ǘ' | 'Ǖ' | 'Ǚ' | 'Ủ' | 'Ů' | 'Ű' | 'Ǔ' | 'Ȕ' | 'Ȗ' | 'Ư' | 'Ừ' | 'Ứ' | 'Ữ' | 'Ử' | 'Ự' | 'Ụ' | 'Ṳ' | 'Ų' | 'Ṷ' | 'Ṵ' | 'Ʉ' => seq!['U'],
        'V' | 'Ⓥ' | 'Ｖ' | 'Ṽ' | 'Ṿ' | 'Ʋ' | 'Ꝟ' | 'Ʌ' => seq!['V'],
        'Ꝡ' => seq!['V', 'Y'],
        'W' | 'Ⓦ' | 'Ｗ' | 'Ẁ' | 'Ẃ' | 'Ŵ' | 'Ẇ' | 'Ẅ' | 'Ẉ' | 'Ⱳ' => seq!['W'],
        'X' | 'Ⓧ' | 'Ｘ' | 'Ẋ' | 'Ẍ' => seq!['X'],
        'Y' | 'Ⓨ' | 'Ｙ' | 'Ỳ' | 'Ý' | 'Ŷ' | 'Ỹ' | 'Ȳ' | 'Ẏ' | 'Ÿ' | 'Ỷ' | 'Ỵ' | 'Ƴ' | 'Ɏ' | 'Ỿ' => seq!['Y'],
        'Z' | 'Ⓩ' | 'Ｚ' | 'Ź' | 'Ẑ' | 'Ż' | 'Ž' | 'Ẓ' | 'Ẕ' | 'Ƶ' | 'Ȥ' | 'Ɀ' | 'Ⱬ' | 'Ꝣ' => seq!['Z'],
        'a' | 'ⓐ' | 'ａ' | 'ẚ' | 'à' | 'á' | 'â' | 'ầ' | 'ấ' | 'ẫ' | 'ẩ' | 'ã' | 'ā' | 'ă' | 'ằ' | 'ắ' | 'ẵ' | 'ẳ' | 'ȧ' | 'ǡ' | 'ä' | 'ǟ' | 'ả' | 'å' | 'ǻ' | 'ǎ' | 'ȁ' | 'ȃ' | 'ạ' | 'ậ' | 'ặ' | 'ḁ' | 'ą' | 'ⱥ' | 'ɐ' => seq!['a'],
        'ꜳ' => seq!['a', 'a'],
        'æ' | 'ǽ' | 'ǣ' => seq!['a'],
        'ꜵ' => seq!['a', 'o'],
        'ꜷ' => seq!['a', 'u'],
        'ꜹ' | 'ꜻ' => seq!['a', 'v'],
        'ꜽ' => seq!['a', 'y'],
        'b' | 'ⓑ' | 'ｂ' | 'ḃ' | 'ḅ' | 'ḇ' | 'ƀ' | 'ƃ' | 'ɓ' | 'þ' => seq!['b'],
        'c' | 'ⓒ' | 'ｃ' | 'ć' | 'ĉ' | 'ċ' | 'č' | 'ç' | 'ḉ' | 'ƈ' | 'ȼ' | 'ꜿ' | 'ↄ' => seq!['c'],
        'd' | 'ⓓ' | 'ｄ' | 'ḋ' | 'ď' | 'ḍ' | 'ḑ' | 'ḓ' | 'ḏ' | 'đ' | 'ƌ' | 'ɖ' | 'ɗ' | 'ꝺ' => seq!['d'],
        'ǳ' | 'ǆ' => seq!['d', 'z'],
        'e' | 'ⓔ' | 'ｅ' | 'è' | 'é' | 'ê' | 'ề' | 'ế' | 'ễ' | 'ể' | 'ẽ' | 'ē' | 'ḕ' | 'ḗ' | 'ĕ' | 'ė' | 'ë' | 'ẻ' | 'ě' | 'ȅ' | 'ȇ' | 'ẹ' | 'ệ' | 'ȩ' | 'ḝ' | 'ę' | 'ḙ' | 'ḛ' | 'ɇ' | 'ɛ' | 'ǝ' => seq!['e'],
        'f' | 'ⓕ' | 'ｆ' | 'ḟ' | 'ƒ' | 'ꝼ' => seq!['f'],
        'g' | 'ⓖ' | 'ｇ' | 'ǵ' | 'ĝ' | 'ḡ' | 'ğ' | 'ġ' | 'ǧ' | 'ģ' | 'ǥ' | 'ɠ' | 'ꞡ' | 'ᵹ' | 'ꝿ' => seq!['g'],
        'h' | 'ⓗ' | 'ｈ' | 'ĥ' | 'ḣ' | 'ḧ' | 'ȟ' | 'ḥ' | 'ḩ' | 'ḫ' | 'ẖ' | 'ħ' | 'ⱨ' | 'ⱶ' | 'ɥ' => seq!['h'],
        'ƕ' => seq!['h', 'v'],
        'i' | 'ⓘ' | 'ｉ' | 'ì' | 'í' | 'î' | 'ĩ' | 'ī' | 'ĭ' | 'ï' | 'ḯ' | 'ỉ' | 'ǐ' | 'ȉ' | 'ȋ' | 'ị' | 'į' | 'ḭ' | 'ɨ' | 'ı' => seq!['i'],
        'j' | 'ⓙ' | 'ｊ' | 'ĵ' | 'ǰ' | 'ɉ' => seq!['j'],
        'k' | 'ⓚ' | 'ｋ' | 'ḱ' | 'ǩ' | 'ḳ' | 'ķ' | 'ḵ' | 'ƙ' | 'ⱪ' | 'ꝁ' | 'ꝃ' | 'ꝅ' | 'ꞣ' => seq!['k'],
        'l' | 'ⓛ' | 'ｌ' | 'ŀ' | 'ĺ' | 'ľ' | 'ḷ' | 'ḹ' | 'ļ' | 'ḽ' | 'ḻ' | 'ſ' | 'ł' | 'ƚ' | 'ɫ' | 'ⱡ' | 'ꝉ' | 'ꞁ' | 'ꝇ' => seq!['l'],
        'ǉ' => seq!['l', 'j'],
        'm' | 'ⓜ' | 'ｍ' | 'ḿ' | 'ṁ' | 'ṃ' | 'ɱ' | 'ɯ' => seq!['m'],
        'n' | 'ⓝ' | 'ｎ' | 'ǹ' | 'ń' | 'ñ' | 'ṅ' | 'ň' | 'ṇ' | 'ņ' | 'ṋ' | 'ṉ' | 'ƞ' | 'ɲ' | 'ŉ' | 'ꞑ' | 'ꞥ' => seq!['n'],
        'ǌ' => seq!['n', 'j'],
        'o' | 'ⓞ' | 'ｏ' | 'ò' | 'ó' | 'ô' | 'ồ' | 'ố' | 'ỗ' | 'ổ' | 'õ' | 'ṍ' | 'ȭ' | 'ṏ' | 'ō' | 'ṑ' | 'ṓ' | 'ŏ' | 'ȯ' | 'ȱ' | 'ö' | 'ȫ' | 'ỏ' | 'ő' | 'ǒ' | 'ȍ' | 'ȏ' | 'ơ' | 'ờ' | 'ớ' | 'ỡ' | 'ở' | 'ợ' | 'ọ' | 'ộ' | 'ǫ' | 'ǭ' | 'ø' | 'ǿ' | 'ɔ' | 'ꝋ' | 'ꝍ' | 'ɵ' => seq!['o'],
        'ƣ' => seq!['o', 'i'],
        'ȣ' => seq!['o', 'u'],
        'ꝏ' => seq!['o', 'o'],
        'p' | 'ⓟ' | 'ｐ' | 'ṕ' | 'ṗ' | 'ƥ' | 'ᵽ' | 'ꝑ' | 'ꝓ' | 'ꝕ' => seq!['p'],
        'q' | 'ⓠ' | 'ｑ' | 'ɋ' | 'ꝗ' | 'ꝙ' => seq!['q'],
        'r' | 'ⓡ' | 'ｒ' | 'ŕ' | 'ṙ' | 'ř' | 'ȑ' | 'ȓ' | 'ṛ' | 'ṝ' | 'ŗ' | 'ṟ' | 'ɍ' | 'ɽ' | 'ꝛ' | 'ꞧ' | 'ꞃ' => seq!['r'],
        's' | 'ⓢ' | 'ｓ' | 'ß' | 'ś' | 'ṥ' | 'ŝ' | 'ṡ' | 'š' | 'ṧ' | 'ṣ' | 'ṩ' | 'ș' | 'ş' | 'ȿ' | 'ꞩ' | 'ꞅ' | 'ẛ' => seq!['s'],
        't' | 'ⓣ' | 'ｔ' | 'ṫ' | 'ẗ' | 'ť' | 'ṭ' | 'ț' | 'ţ' | 'ṱ' | 'ṯ' | 'ŧ' | 'ƭ' | 'ʈ' | 'ⱦ' | 'ꞇ' => seq!['t'],
        'ꜩ' => seq!['t', 'z'],
        'u' | 'ⓤ' | 'ｕ' | 'ù' | 'ú' | 'û' | 'ũ' | 'ṹ' | 'ū' | 'ṻ' | 'ŭ' | 'ü' | 'ǜ' | 'ǘ' | 'ǖ' | 'ǚ' | 'ủ' | 'ů' | 'ű' | 'ǔ' | 'ȕ' | 'ȗ' | 'ư' | 'ừ' | 'ứ' | 'ữ' | 'ử' | 'ự' | 'ụ' | 'ṳ' | 'ų' | 'ṷ' | 'ṵ' | 'ʉ' => seq!['u'],
        'v' | 'ⓥ' | 'ｖ' | 'ṽ' | 'ṿ' | 'ʋ' | 'ꝟ' | 'ʌ' => seq!['v'],
        'ꝡ' => seq!['v', 'y'],
        'w' | 'ⓦ' | 'ｗ' | 'ẁ' | 'ẃ' | 'ŵ' | 'ẇ' | 'ẅ' | 'ẘ' | 'ẉ' | 'ⱳ' => seq!['w'],
        'x' | 'ⓧ' | 'ｘ' | 'ẋ' | 'ẍ' => seq!['x'],
        'y' | 'ⓨ' | 'ｙ' | 'ỳ' | 'ý' | 'ŷ' | 'ỹ' | 'ȳ' | 'ẏ' | 'ÿ' | 'ỷ' | 'ẙ' | 'ỵ' | 'ƴ' | 'ɏ' | 'ỿ' => seq!['y'],
        'z' | 'ⓩ' | 'ｚ' | 'ź' | 'ẑ' | 'ż' | 'ž' | 'ẓ' | 'ẕ' | 'ƶ' | 'ȥ' | 'ɀ' | 'ⱬ' | 'ꝣ' => seq!['z'],
        '·' | '/' | '_' | ',' | ':' | ';' | ' ' | '\n' | '\t' | '\r' => seq!['-'],
        _ => seq![c],
    }
}


/// Folding applied to a whole string, in order.
pub open spec fn fold_seq(s: Seq<char>) -> Seq<char>
    decreases s.len(),
{
    if s.len() == 0 {
        Seq::empty()
    } else {
        fold_seq(s.drop_last()) + fold_char(s.last())
    }
}

/// Fold extended-Latin letters, ligatures and word separators to plain ASCII.
pub fn remove_diacritics(s: &str) -> (r: String)
    ensures
        r@ == fold_seq(s@),
{
    let chars = str_to_chars(s);
    let folded = fold_chars(&chars);
    chars_to_string(&folded)
}

fn fold_chars(v: &Vec<char>) -> (r: Vec<char>)
    ensures
        r@ == fold_seq(v@),
{
    let mut out: Vec<char> = Vec::new();
    let mut i: usize = 0;
    while i < v.len()
        invariant
            i <= v@.len(),
            out@ == fold_seq(v@.subrange(0, i as int)),
        decreases v@.len() - i,
    {
        let ghost out0 = out@;
        let (a, b) = fold_pair(v[i]);
        out.push(a);
        match b {
            Option::Some(c2) => {
                out.push(c2);
                proof {
                    assert(out@ =~= out0 + fold_char(v@[i as int]));
                }
            },
            Option::None => {
                proof {
                    assert(out@ =~= out0 + fold_char(v@[i as int]));
                }
            },
        }
        i = i + 1;
        proof {
            let sub = v@.subrange(0, i as int);
            assert(sub.drop_last() =~= v@.subrange(0, i - 1));
            assert(sub.last() == v@[i - 1]);
            assert(out@ == fold_seq(sub));
        }
    }
    proof {
        assert(v@.subrange(0, v@.len() as int) =~= v@);
    }
    out
}

/// What `str::to_lowercase` returns: a fixed function of the characters alone.
pub uninterp spec fn lower_of(s: Seq<char>) -> Seq<char>;

/// A sequence of characters that are all plain ASCII.
pub open spec fn all_ascii(s: Seq<char>) -> bool {
    forall|i: int| 0 <= i < s.len() ==> (s[i] as u32) < 128
}

/// ASCII lowercasing of one character: `A`-`Z` become `a`-`z`.
pub open spec fn ascii_lower_char(c: char) -> char {
    if 'A' <= c && c <= 'Z' {
        ((c as u32) + 32) as char
    } else {
        c
    }
}

/// ASCII lowercasing applied pointwise.
pub open spec fn ascii_lower(s: Seq<char>) -> Seq<char> {
    Seq::new(s.len(), |i: int| ascii_lower_char(s[i]))
}

/// Relies on `str::to_lowercase`: the result depends on the characters
/// alone; on plain-ASCII input it lowercases exactly the letters `A`-`Z`;
/// and no Unicode lowercase mapping produces a space or an underscore, so
/// the result contains them only where the input does.
#[verifier::external_body]
fn lowercase(s: &str) -> (r: String)
    ensures
        r@ == lower_of(s@),
        all_ascii(s@) ==> r@ == ascii_lower(s@),
        (forall|i: int| 0 <= i < s@.len() ==> (#[trigger] s@[i]) != ' ' && s@[i] != '_')
            ==> (forall|i: int|
            0 <= i < r@.len() ==> (#[trigger] r@[i]) != ' ' && r@[i] != '_'),
{
    s.to_lowercase()
}

/// The characters that survive in a slug: `a`-`z`, `0`-`9`, space, underscore.
pub open spec fn is_slug_char(c: char) -> bool {
    ('a' <= c && c <= 'z') || ('0' <= c && c <= '9') || c == ' ' || c == '_'
}

fn slug_char(c: char) -> (r: bool)
    ensures
        r == is_slug_char(c),
{
    ('a' <= c && c <= 'z') || ('0' <= c && c <= '9') || c == ' ' || c == '_'
}

/// Replace every maximal run of non-slug characters with a single hyphen.
/// `in_run` records whether the previous character was part of such a run.
pub open spec fn collapse_from(s: Seq<char>, in_run: bool) -> Seq<char>
    decreases s.len(),
{
    if s.len() == 0 {
        Seq::empty()
    } else if is_slug_char(s[0]) {
        seq![s[0]] + collapse_from(s.drop_first(), false)
    } else if in_run {
        collapse_from(s.drop_first(), true)
    } else {
        seq!['-'] + collapse_from(s.drop_first(), true)
    }
}

fn collapse_chars(v: &Vec<char>) -> (r: Vec<char>)
    ensures
        r@ == collapse_from(v@, false),
{
    let n = v.len();
    let mut out: Vec<char> = Vec::new();
    let mut in_run = false;
    let mut i: usize = 0;
    proof {
        assert(v@.subrange(0, n as int) =~= v@);
        assert(out@ + collapse_from(v@, false) =~= collapse_from(v@, false));
    }
    while i < n
        invariant
            i <= n,
            n == v@.len(),
            out@ + collapse_from(v@.subrange(i as int, n as int), in_run) == collapse_from(
                v@,
                false,
            ),
        decreases n - i,
    {
        let ghost suf = v@.subrange(i as int, n as int);
        let ghost out0 = out@;
        let c = v[i];
        proof {
            assert(suf[0] == c);
            assert(suf.drop_first() =~= v@.subrange(i + 1, n as int));
        }
        if slug_char(c) {
            out.push(c);
            in_run = false;
            proof {
                assert(out@ =~= out0 + seq![c]);
                assert(out0 + (seq![c] + collapse_from(v@.subrange(i + 1, n as int), false)) =~= (
                out0 + seq![c]) + collapse_from(v@.subrange(i + 1, n as int), false));
            }
        } else if in_run {
        } else {
            out.push('-');
            in_run = true;
            proof {
                assert(out@ =~= out0 + seq!['-']);
                assert(out0 + (seq!['-'] + collapse_from(v@.subrange(i + 1, n as int), true)) =~= (
                out0 + seq!['-']) + collapse_from(v@.subrange(i + 1, n as int), true));
            }
        }
        i = i + 1;
    }
    proof {
        assert(v@.subrange(n as int, n as int).len() == 0);
        assert(out@ =~= out@ + collapse_from(v@.subrange(n as int, n as int), in_run));
    }
    out
}

/// Remove leading hyphens.
pub open spec fn trim_lead(s: Seq<char>) -> Seq<char>
    decreases s.len(),
{
    if s.len() > 0 && s[0] == '-' {
        trim_lead(s.drop_first())
    } else {
        s
    }
}

/// Remove trailing hyphens.
pub open spec fn trim_trail(s: Seq<char>) -> Seq<char>
    decreases s.len(),
{
    if s.len() > 0 && s.last() == '-' {
        trim_trail(s.drop_last())
    } else {
        s
    }
}

fn trim_dash_chars(v: &Vec<char>) -> (r: Vec<char>)
    ensures
        r@ == trim_trail(trim_lead(v@)),
{
    let n = v.len();
    let mut a: usize = 0;
    proof {
        assert(v@.subrange(0, n as int) =~= v@);
    }
    while a < n && v[a] == '-'
        invariant
            a <= n,
            n == v@.len(),
            trim_lead(v@) == trim_lead(v@.subrange(a as int, n as int)),
        decreases n - a,
    {
        proof {
            let suf = v@.subrange(a as int, n as int);
            assert(suf[0] == '-');
            assert(suf.drop_first() =~= v@.subrange(a + 1, n as int));
        }
        a = a + 1;
    }
    proof {
        let suf = v@.subrange(a as int, n as int);
        assert(trim_lead(suf) == suf);
    }
    let mut b: usize = n;
    while b > a && v[b - 1] == '-'
        invariant
            a <= b <= n,
            n == v@.len(),
            trim_lead(v@) == trim_lead(v@.subrange(a as int, n as int)),
            trim_lead(v@.subrange(a as int, n as int)) == v@.subrange(a as int, n as int),
            trim_trail(v@.subrange(a as int, n as int)) == trim_trail(
                v@.subrange(a as int, b as int),
            ),
        decreases b,
    {
        proof {
            let cur = v@.subrange(a as int, b as int);
            assert(cur.last() == v@[b - 1]);
            assert(cur.drop_last() =~= v@.subrange(a as int, b - 1));
        }
        b = b - 1;
    }
    proof {
        let cur = v@.subrange(a as int, b as int);
        if cur.len() > 0 {
            assert(cur.last() == v@[b - 1]);
        }
        assert(trim_trail(cur) == cur);
    }
    let mut out: Vec<char> = Vec::new();
    let mut i: usize = a;
    while i < b
        invariant
            a <= i <= b <= n,
            n == v@.len(),
            out@ == v@.subrange(a as int, i as int),
        decreases b - i,
    {
        out.push(v[i]);
        i = i + 1;
        proof {
            assert(out@ =~= v@.subrange(a as int, i as int));
        }
    }
    proof {
        assert(out@ == v@.subrange(a as int, b as int));
        assert(trim_trail(trim_lead(v@)) == out@);
    }
    out
}


/// The characters a finished identifier may hold: `a`-`z`, `0`-`9`, hyphen.
pub open spec fn is_id_char(c: char) -> bool {
    ('a' <= c && c <= 'z') || ('0' <= c && c <= '9') || c == '-'
}

/// No folded character is a space or an underscore: the fold table maps
/// both to a hyphen, and every mapped expansion is plain letters.
proof fn lemma_fold_char_no_sep(c: char)
    ensures
        forall|j: int|
            0 <= j < fold_char(c).len() ==> (#[trigger] fold_char(c)[j]) != ' ' && fold_char(
                c,
            )[j] != '_',
{
}

/// Folded text contains neither spaces nor underscores.
proof fn lemma_fold_seq_no_sep(s: Seq<char>)
    ensures
        forall|i: int|
            0 <= i < fold_seq(s).len() ==> (#[trigger] fold_seq(s)[i]) != ' ' && fold_seq(s)[i]
                != '_',
    decreases s.len(),
{
    if s.len() > 0 {
        lemma_fold_seq_no_sep(s.drop_last());
        lemma_fold_char_no_sep(s.last());
        assert(fold_seq(s) == fold_seq(s.drop_last()) + fold_char(s.last()));
        assert forall|i: int|
            0 <= i < fold_seq(s).len() implies (#[trigger] fold_seq(s)[i]) != ' ' && fold_seq(
            s,
        )[i] != '_' by {
            if i < fold_seq(s.drop_last()).len() {
                assert(fold_seq(s)[i] == fold_seq(s.drop_last())[i]);
            } else {
                assert(fold_seq(s)[i] == fold_char(s.last())[i - fold_seq(
                    s.drop_last(),
                ).len()]);
            }
        }
    }
}

/// On text without spaces or underscores, collapsing leaves only letters,
/// digits and hyphens.
proof fn lemma_collapse_id(s: Seq<char>, in_run: bool)
    requires
        forall|i: int| 0 <= i < s.len() ==> (#[trigger] s[i]) != ' ' && s[i] != '_',
    ensures
        forall|j: int|
            0 <= j < collapse_from(s, in_run).len() ==> is_id_char(
                #[trigger] collapse_from(s, in_run)[j],
            ),
    decreases s.len(),
{
    if s.len() > 0 {
        let d = s.drop_first();
        assert(forall|i: int| 0 <= i < d.len() ==> (#[trigger] d[i]) != ' ' && d[i] != '_');
        if is_slug_char(s[0]) {
            lemma_collapse_id(d, false);
            assert forall|j: int|
                0 <= j < collapse_from(s, in_run).len() implies is_id_char(
                #[trigger] collapse_from(s, in_run)[j],
            ) by {
                if j == 0 {
                    assert(collapse_from(s, in_run)[0] == s[0]);
                } else {
                    assert(collapse_from(s, in_run)[j] == collapse_from(d, false)[j - 1]);
                }
            }
        } else if in_run {
            lemma_collapse_id(d, true);
            assert forall|j: int|
                0 <= j < collapse_from(s, in_run).len() implies is_id_char(
                #[trigger] collapse_from(s, in_run)[j],
            ) by {
                assert(collapse_from(s, in_run)[j] == collapse_from(d, true)[j]);
            }
        } else {
            lemma_collapse_id(d, true);
            assert forall|j: int|
                0 <= j < collapse_from(s, in_run).len() implies is_id_char(
                #[trigger] collapse_from(s, in_run)[j],
            ) by {
                if j == 0 {
                    assert(collapse_from(s, in_run)[0] == '-');
                } else {
                    assert(collapse_from(s, in_run)[j] == collapse_from(d, true)[j - 1]);
                }
            }
        }
    }
}

/// Trimming leading hyphens keeps the identifier alphabet.
proof fn lemma_trim_lead_id(s: Seq<char>)
    requires
        forall|i: int| 0 <= i < s.len() ==> is_id_char(#[trigger] s[i]),
    ensures
        forall|j: int|
            0 <= j < trim_lead(s).len() ==> is_id_char(#[trigger] trim_lead(s)[j]),
    decreases s.len(),
{
    if s.len() > 0 && s[0] == '-' {
        let d = s.drop_first();
        assert(forall|i: int| 0 <= i < d.len() ==> is_id_char(#[trigger] d[i]));
        lemma_trim_lead_id(d);
        assert forall|j: int|
            0 <= j < trim_lead(s).len() implies is_id_char(#[trigger] trim_lead(s)[j]) by {
            assert(trim_lead(s)[j] == trim_lead(d)[j]);
        }
    } else {
        assert forall|j: int|
            0 <= j < trim_lead(s).len() implies is_id_char(#[trigger] trim_lead(s)[j]) by {
            assert(trim_lead(s)[j] == s[j]);
        }
    }
}

/// Trimming trailing hyphens keeps the identifier alphabet.
proof fn lemma_trim_trail_id(s: Seq<char>)
    requires
        forall|i: int| 0 <= i < s.len() ==> is_id_char(#[trigger] s[i]),
    ensures
        forall|j: int|
            0 <= j < trim_trail(s).len() ==> is_id_char(#[trigger] trim_trail(s)[j]),
    decreases s.len(),
{
    if s.len() > 0 && s.last() == '-' {
        let d = s.drop_last();
        assert(forall|i: int| 0 <= i < d.len() ==> is_id_char(#[trigger] d[i]));
        lemma_trim_trail_id(d);
        assert forall|j: int|
            0 <= j < trim_trail(s).len() implies is_id_char(#[trigger] trim_trail(s)[j]) by {
            assert(trim_trail(s)[j] == trim_trail(d)[j]);
        }
    } else {
        assert forall|j: int|
            0 <= j < trim_trail(s).len() implies is_id_char(#[trigger] trim_trail(s)[j]) by {
            assert(trim_trail(s)[j] == s[j]);
        }
    }
}

/// The identifier derived from a heading title.
pub open spec fn slug_chars(title: Seq<char>) -> Seq<char> {
    trim_trail(trim_lead(collapse_from(lower_of(fold_seq(title)), false)))
}

/// The visible text below one output node: text payloads in order, with all
/// markup stripped.  Raw markup, comments and the document wrappers count as
/// empty.
pub open spec fn htext(v: ElemV) -> Seq<char>
    decreases v,
{
    match v {
        ElemV::Text { text } => text,
        ElemV::Container { children, .. } => htext_list(children),
        _ => Seq::empty(),
    }
}

/// The visible text below a list of output nodes, in order.
pub open spec fn htext_list(vs: Seq<ElemV>) -> Seq<char>
    decreases vs,
{
    if vs.len() == 0 {
        Seq::empty()
    } else {
        htext_list(vs.drop_last()) + htext(vs.last())
    }
}

fn collect_text(e: &Element) -> (r: Vec<char>)
    ensures
        r@ == htext(elem_view(*e)),
    decreases *e,
{
    match e {
        Element::Text(s) => str_to_chars(s.as_str()),
        Element::Container(_, m) => collect_text_list(&m.children),
        _ => Vec::new(),
    }
}

fn collect_text_list(children: &Vec<Element>) -> (r: Vec<char>)
    ensures
        r@ == htext_list(elems_view(children@)),
    decreases children@,
{
    let mut out: Vec<char> = Vec::new();
    let mut i: usize = 0;
    while i < children.len()
        invariant
            i <= children@.len(),
            out@ == htext_list(elems_view(children@.subrange(0, i as int))),
        decreases children@.len() - i,
    {
        proof {
            assert(decreases_to!(children@ => children@[i as int]));
        }
        let mut cs = collect_text(&children[i]);
        out.append(&mut cs);
        i = i + 1;
        proof {
            let sub = children@.subrange(0, i as int);
            assert(sub.drop_last() =~= children@.subrange(0, i - 1));
            assert(sub.last() == children@[i - 1]);
            crate::html::lemma_elems_view_len(sub);
            assert(elems_view(sub).drop_last() =~= elems_view(children@.subrange(0, i - 1)));
            assert(elems_view(sub).last() == elem_view(children@[i - 1]));
            assert(out@ == htext_list(elems_view(sub)));
        }
    }
    proof {
        assert(children@.subrange(0, children@.len() as int) =~= children@);
    }
    out
}

/// Derive `(id, title)` from the transduced children of a heading: the title
/// is the concatenated visible text; the id is its slug.  Identifiers are not
/// deduplicated across headings.
pub fn heading_to_slug(elements: &Vec<Element>) -> (r: (String, String))
    ensures
        r.1@ == htext_list(elems_view(elements@)),
        r.0@ == slug_chars(htext_list(elems_view(elements@))),
        all_ascii(fold_seq(htext_list(elems_view(elements@)))) ==> r.0@ == trim_trail(
            trim_lead(
                collapse_from(ascii_lower(fold_seq(htext_list(elems_view(elements@)))), false),
            ),
        ),
        forall|i: int|
            0 <= i < slug_chars(htext_list(elems_view(elements@))).len() ==> is_id_char(
                #[trigger] slug_chars(htext_list(elems_view(elements@)))[i],
            ),
{
    let text = collect_text_list(elements);
    let title = chars_to_string(&text);
    let folded = fold_chars(&text);
    let folded_s = chars_to_string(&folded);
    let lowered = lowercase(folded_s.as_str());
    let low_chars = str_to_chars(lowered.as_str());
    let collapsed = collapse_chars(&low_chars);
    let trimmed = trim_dash_chars(&collapsed);
    proof {
        let titlev = htext_list(elems_view(elements@));
        lemma_fold_seq_no_sep(text@);
        assert forall|i: int|
            0 <= i < folded_s@.len() implies (#[trigger] folded_s@[i]) != ' ' && folded_s@[i]
            != '_' by {
            assert(folded_s@[i] == fold_seq(text@)[i]);
        }
        assert forall|i: int|
            0 <= i < low_chars@.len() implies (#[trigger] low_chars@[i]) != ' '
            && low_chars@[i] != '_' by {
            assert(low_chars@[i] == lowered@[i]);
        }
        lemma_collapse_id(low_chars@, false);
        assert forall|j: int|
            0 <= j < collapsed@.len() implies is_id_char(#[trigger] collapsed@[j]) by {
            assert(collapsed@[j] == collapse_from(low_chars@, false)[j]);
        }
        lemma_trim_lead_id(collapsed@);
        lemma_trim_trail_id(trim_lead(collapsed@));
        assert forall|i: int|
            0 <= i < slug_chars(titlev).len() implies is_id_char(
            #[trigger] slug_chars(titlev)[i],
        ) by {
            assert(slug_chars(titlev)[i] == trim_trail(trim_lead(collapsed@))[i]);
        }
    }
    (chars_to_string(&trimmed), title)
}


fn fold_pair(c: char) -> (r: (char, Option<char>))
    ensures
        fold_char(c) == pair_chars(r),
{
    match c {
        'A' | 'Ⓐ' | 'Ａ' | 'À' | 'Á' | 'Â' | 'Ầ' | 'Ấ' | 'Ẫ' | 'Ẩ' | 'Ã' | 'Ā' | 'Ă' | 'Ằ' | 'Ắ' | 'Ẵ' | 'Ẳ' | 'Ȧ' | 'Ǡ' | 'Ä' | 'Ǟ' | 'Ả' | 'Å' | 'Ǻ' | 'Ǎ' | 'Ȁ' | 'Ȃ' | 'Ạ' | 'Ậ' | 'Ặ' | 'Ḁ' | 'Ą' | 'Ⱥ' | 'Ɐ' => ('A', None),
        'Ꜳ' => ('A', Some('A')),
        'Æ' | 'Ǽ' | 'Ǣ' => ('A', None),
        'Ꜵ' => ('A', Some('O')),
        'Ꜷ' => ('A', Some('U')),
        'Ꜹ' | 'Ꜻ' => ('A', Some('V')),
        'Ꜽ' => ('A', Some('Y')),
        'B' | 'Ⓑ' | 'Ｂ' | 'Ḃ' | 'Ḅ' | 'Ḇ' | 'Ƀ' | 'Ƃ' | 'Ɓ' => ('B', None),
        'C' | 'Ⓒ' | 'Ｃ' | 'Ć' | 'Ĉ' | 'Ċ' | 'Č' | 'Ç' | 'Ḉ' | 'Ƈ' | 'Ȼ' | 'Ꜿ' => ('C', None),
        'D' | 'Ⓓ' | 'Ｄ' | 'Ḋ' | 'Ď' | 'Ḍ' | 'Ḑ' | 'Ḓ' | 'Ḏ' | 'Đ' | 'Ƌ' | 'Ɗ' | 'Ɖ' | 'Ꝺ' => ('D', None),
        'Ǳ' | 'Ǆ' => ('D', Some('Z')),
        'ǲ' | 'ǅ' => ('D', Some('z')),
        'E' | 'Ⓔ' | 'Ｅ' | 'È' | 'É' | 'Ê' | 'Ề' | 'Ế' | 'Ễ' | 'Ể' | 'Ẽ' | 'Ē' | 'Ḕ' | 'Ḗ' | 'Ĕ' | 'Ė' | 'Ë' | 'Ẻ' | 'Ě' | 'Ȅ' | 'Ȇ' | 'Ẹ' | 'Ệ' | 'Ȩ' | 'Ḝ' | 'Ę' | 'Ḙ' | 'Ḛ' | 'Ɛ' | 'Ǝ' => ('E', None),
        'F' | 'Ⓕ' | 'Ｆ' | 'Ḟ' | 'Ƒ' | 'Ꝼ' => ('F', None),
        'G' | 'Ⓖ' | 'Ｇ' | 'Ǵ' | 'Ĝ' | 'Ḡ' | 'Ğ' | 'Ġ' | 'Ǧ' | 'Ģ' | 'Ǥ' | 'Ɠ' | 'Ꞡ' | 'Ᵹ' | 'Ꝿ' => ('G', None),
        'H' | 'Ⓗ' | 'Ｈ' | 'Ĥ' | 'Ḣ' | 'Ḧ' | 'Ȟ' | 'Ḥ' | 'Ḩ' | 'Ḫ' | 'Ħ' | 'Ⱨ' | 'Ⱶ' | 'Ɥ' => ('H', None),
        'I' | 'Ⓘ' | 'Ｉ' | 'Ì' | 'Í' | 'Î' | 'Ĩ' | 'Ī' | 'Ĭ' | 'İ' | 'Ï' | 'Ḯ' | 'Ỉ' | 'Ǐ' | 'Ȉ' | 'Ȋ' | 'Ị' | 'Į' | 'Ḭ' | 'Ɨ' => ('I', None),
        'J' | 'Ⓙ' | 'Ｊ' | 'Ĵ' | 'Ɉ' => ('J', None),
        'K' | 'Ⓚ' | 'Ｋ' | 'Ḱ' | 'Ǩ' | 'Ḳ' | 'Ķ' | 'Ḵ' | 'Ƙ' | 'Ⱪ' | 'Ꝁ' | 'Ꝃ' | 'Ꝅ' | 'Ꞣ' => ('K', None),
        'L' | 'Ⓛ' | 'Ｌ' | 'Ŀ' | 'Ĺ' | 'Ľ' | 'Ḷ' | 'Ḹ' | 'Ļ' | 'Ḽ' | 'Ḻ' | 'Ł' | 'Ƚ' | 'Ɫ' | 'Ⱡ' | 'Ꝉ' | 'Ꝇ' | 'Ꞁ' => ('L', None),
        'Ǉ' => ('L', Some('J')),
        'ǈ' => ('L', Some('j')),
        'M' | 'Ⓜ' | 'Ｍ' | 'Ḿ' | 'Ṁ' | 'Ṃ' | 'Ɱ' | 'Ɯ' => ('M', None),
        'N' | 'Ⓝ' | 'Ｎ' | 'Ǹ' | 'Ń' | 'Ñ' | 'Ṅ' | 'Ň' | 'Ṇ' | 'Ņ' | 'Ṋ' | 'Ṉ' | 'Ƞ' | 'Ɲ' | 'Ꞑ' | 'Ꞥ' => ('N', None),
        'Ǌ' => ('N', Some('J')),
        'ǋ' => ('N', Some('j')),
        'O' | 'Ⓞ' | 'Ｏ' | 'Ò' | 'Ó' | 'Ô' | 'Ồ' | 'Ố' | 'Ỗ' | 'Ổ' | 'Õ' | 'Ṍ' | 'Ȭ' | 'Ṏ' | 'Ō' | 'Ṑ' | 'Ṓ' | 'Ŏ' | 'Ȯ' | 'Ȱ' | 'Ö' | 'Ȫ' | 'Ỏ' | 'Ő' | 'Ǒ' | 'Ȍ' | 'Ȏ' | 'Ơ' | 'Ờ' | 'Ớ' | 'Ỡ' | 'Ở' | 'Ợ' | 'Ọ' | 'Ộ' | 'Ǫ' | 'Ǭ' | 'Ø' | 'Ǿ' | 'Ɔ' | 'Ɵ' | 'Ꝋ' | 'Ꝍ' => ('O', None),
        'Ƣ' => ('O', Some('I')),
        'Ꝏ' => ('O', Some('O')),
        'Ȣ' => ('O', Some('U')),
        '\u{008C}' | 'Œ' => ('O', Some('E')),
        '\u{009C}' | 'œ' => ('o', Some('e')),
        'P' | 'Ⓟ' | 'Ｐ' | 'Ṕ' | 'Ṗ' | 'Ƥ' | 'Ᵽ' | 'Ꝑ' | 'Ꝓ' | 'Ꝕ' => ('P', None),
        'Q' | 'Ⓠ' | 'Ｑ' | 'Ꝗ' | 'Ꝙ' | 'Ɋ' => ('Q', None),
        'R' | 'Ⓡ' | 'Ｒ' | 'Ŕ' | 'Ṙ' | 'Ř' | 'Ȑ' | 'Ȓ' | 'Ṛ' | 'Ṝ' | 'Ŗ' | 'Ṟ' | 'Ɍ' | 'Ɽ' | 'Ꝛ' | 'Ꞧ' | 'Ꞃ' => ('R', None),
        'S' | 'Ⓢ' | 'Ｓ' | 'ẞ' | 'Ś' | 'Ṥ' | 'Ŝ' | 'Ṡ' | 'Š' | 'Ṧ' | 'Ṣ' | 'Ṩ' | 'Ș' | 'Ş' | 'Ȿ' | 'Ꞩ' | 'Ꞅ' => ('S', None),
        'T' | 'Ⓣ' | 'Ｔ' | 'Ṫ' | 'Ť' | 'Ṭ' | 'Ț' | 'Ţ' | 'Ṱ' | 'Ṯ' | 'Ŧ' | 'Ƭ' | 'Ʈ' | 'Ⱦ' | 'Ꞇ' => ('T', None),
        'Ꜩ' => ('T', Some('Z')),
        'U' | 'Ⓤ' | 'Ｕ' | 'Ù' | 'Ú' | 'Û' | 'Ũ' | 'Ṹ' | 'Ū' | 'Ṻ' | 'Ŭ' | 'Ü' | 'Ǜ' | 'Ǘ' | 'Ǖ' | 'Ǚ' | 'Ủ' | 'Ů' | 'Ű' | 'Ǔ' | 'Ȕ' | 'Ȗ' | 'Ư' | 'Ừ' | 'Ứ' | 'Ữ' | 'Ử' | 'Ự' | 'Ụ' | 'Ṳ' | 'Ų' | 'Ṷ' | 'Ṵ' | 'Ʉ' => ('U', None),
        'V' | 'Ⓥ' | 'Ｖ' | 'Ṽ' | 'Ṿ' | 'Ʋ' | 'Ꝟ' | 'Ʌ' => ('V', None),
        'Ꝡ' => ('V', Some('Y')),
        'W' | 'Ⓦ' | 'Ｗ' | 'Ẁ' | 'Ẃ' | 'Ŵ' | 'Ẇ' | 'Ẅ' | 'Ẉ' | 'Ⱳ' => ('W', None),
        'X' | 'Ⓧ' | 'Ｘ' | 'Ẋ' | 'Ẍ' => ('X', None),
        'Y' | 'Ⓨ' | 'Ｙ' | 'Ỳ' | 'Ý' | 'Ŷ' | 'Ỹ' | 'Ȳ' | 'Ẏ' | 'Ÿ' | 'Ỷ' | 'Ỵ' | 'Ƴ' | 'Ɏ' | 'Ỿ' => ('Y', None),
        'Z' | 'Ⓩ' | 'Ｚ' | 'Ź' | 'Ẑ' | 'Ż' | 'Ž' | 'Ẓ' | 'Ẕ' | 'Ƶ' | 'Ȥ' | 'Ɀ' | 'Ⱬ' | 'Ꝣ' => ('Z', None),
        'a' | 'ⓐ' | 'ａ' | 'ẚ' | 'à' | 'á' | 'â' | 'ầ' | 'ấ' | 'ẫ' | 'ẩ' | 'ã' | 'ā' | 'ă' | 'ằ' | 'ắ' | 'ẵ' | 'ẳ' | 'ȧ' | 'ǡ' | 'ä' | 'ǟ' | 'ả' | 'å' | 'ǻ' | 'ǎ' | 'ȁ' | 'ȃ' | 'ạ' | 'ậ' | 'ặ' | 'ḁ' | 'ą' | 'ⱥ' | 'ɐ' => ('a', None),
        'ꜳ' => ('a', Some('a')),
        'æ' | 'ǽ' | 'ǣ' => ('a', None),
        'ꜵ' => ('a', Some('o')),
        'ꜷ' => ('a', Some('u')),
        'ꜹ' | 'ꜻ' => ('a', Some('v')),
        'ꜽ' => ('a', Some('y')),
        'b' | 'ⓑ' | 'ｂ' | 'ḃ' | 'ḅ' | 'ḇ' | 'ƀ' | 'ƃ' | 'ɓ' | 'þ' => ('b', None),
        'c' | 'ⓒ' | 'ｃ' | 'ć' | 'ĉ' | 'ċ' | 'č' | 'ç' | 'ḉ' | 'ƈ' | 'ȼ' | 'ꜿ' | 'ↄ' => ('c', None),
        'd' | 'ⓓ' | 'ｄ' | 'ḋ' | 'ď' | 'ḍ' | 'ḑ' | 'ḓ' | 'ḏ' | 'đ' | 'ƌ' | 'ɖ' | 'ɗ' | 'ꝺ' => ('d', None),
        'ǳ' | 'ǆ' => ('d', Some('z')),
        'e' | 'ⓔ' | 'ｅ' | 'è' | 'é' | 'ê' | 'ề' | 'ế' | 'ễ' | 'ể' | 'ẽ' | 'ē' | 'ḕ' | 'ḗ' | 'ĕ' | 'ė' | 'ë' | 'ẻ' | 'ě' | 'ȅ' | 'ȇ' | 'ẹ' | 'ệ' | 'ȩ' | 'ḝ' | 'ę' | 'ḙ' | 'ḛ' | 'ɇ' | 'ɛ' | 'ǝ' => ('e', None),
        'f' | 'ⓕ' | 'ｆ' | 'ḟ' | 'ƒ' | 'ꝼ' => ('f', None),
        'g' | 'ⓖ' | 'ｇ' | 'ǵ' | 'ĝ' | 'ḡ' | 'ğ' | 'ġ' | 'ǧ' | 'ģ' | 'ǥ' | 'ɠ' | 'ꞡ' | 'ᵹ' | 'ꝿ' => ('g', None),
        'h' | 'ⓗ' | 'ｈ' | 'ĥ' | 'ḣ' | 'ḧ' | 'ȟ' | 'ḥ' | 'ḩ' | 'ḫ' | 'ẖ' | 'ħ' | 'ⱨ' | 'ⱶ' | 'ɥ' => ('h', None),
        'ƕ' => ('h', Some('v')),
        'i' | 'ⓘ' | 'ｉ' | 'ì' | 'í' | 'î' | 'ĩ' | 'ī' | 'ĭ' | 'ï' | 'ḯ' | 'ỉ' | 'ǐ' | 'ȉ' | 'ȋ' | 'ị' | 'į' | 'ḭ' | 'ɨ' | 'ı' => ('i', None),
        'j' | 'ⓙ' | 'ｊ' | 'ĵ' | 'ǰ' | 'ɉ' => ('j', None),
        'k' | 'ⓚ' | 'ｋ' | 'ḱ' | 'ǩ' | 'ḳ' | 'ķ' | 'ḵ' | 'ƙ' | 'ⱪ' | 'ꝁ' | 'ꝃ' | 'ꝅ' | 'ꞣ' => ('k', None),
        'l' | 'ⓛ' | 'ｌ' | 'ŀ' | 'ĺ' | 'ľ' | 'ḷ' | 'ḹ' | 'ļ' | 'ḽ' | 'ḻ' | 'ſ' | 'ł' | 'ƚ' | 'ɫ' | 'ⱡ' | 'ꝉ' | 'ꞁ' | 'ꝇ' => ('l', None),
        'ǉ' => ('l', Some('j')),
        'm' | 'ⓜ' | 'ｍ' | 'ḿ' | 'ṁ' | 'ṃ' | 'ɱ' | 'ɯ' => ('m', None),
        'n' | 'ⓝ' | 'ｎ' | 'ǹ' | 'ń' | 'ñ' | 'ṅ' | 'ň' | 'ṇ' | 'ņ' | 'ṋ' | 'ṉ' | 'ƞ' | 'ɲ' | 'ŉ' | 'ꞑ' | 'ꞥ' => ('n', None),
        'ǌ' => ('n', Some('j')),
        'o' | 'ⓞ' | 'ｏ' | 'ò' | 'ó' | 'ô' | 'ồ' | 'ố' | 'ỗ' | 'ổ' | 'õ' | 'ṍ' | 'ȭ' | 'ṏ' | 'ō' | 'ṑ' | 'ṓ' | 'ŏ' | 'ȯ' | 'ȱ' | 'ö' | 'ȫ' | 'ỏ' | 'ő' | 'ǒ' | 'ȍ' | 'ȏ' | 'ơ' | 'ờ' | 'ớ' | 'ỡ' | 'ở' | 'ợ' | 'ọ' | 'ộ' | 'ǫ' | 'ǭ' | 'ø' | 'ǿ' | 'ɔ' | 'ꝋ' | 'ꝍ' | 'ɵ' => ('o', None),
        'ƣ' => ('o', Some('i')),
        'ȣ' => ('o', Some('u')),
        'ꝏ' => ('o', Some('o')),
        'p' | 'ⓟ' | 'ｐ' | 'ṕ' | 'ṗ' | 'ƥ' | 'ᵽ' | 'ꝑ' | 'ꝓ' | 'ꝕ' => ('p', None),
        'q' | 'ⓠ' | 'ｑ' | 'ɋ' | 'ꝗ' | 'ꝙ' => ('q', None),
        'r' | 'ⓡ' | 'ｒ' | 'ŕ' | 'ṙ' | 'ř' | 'ȑ' | 'ȓ' | 'ṛ' | 'ṝ' | 'ŗ' | 'ṟ' | 'ɍ' | 'ɽ' | 'ꝛ' | 'ꞧ' | 'ꞃ' => ('r', None),
        's' | 'ⓢ' | 'ｓ' | 'ß' | 'ś' | 'ṥ' | 'ŝ' | 'ṡ' | 'š' | 'ṧ' | 'ṣ' | 'ṩ' | 'ș' | 'ş' | 'ȿ' | 'ꞩ' | 'ꞅ' | 'ẛ' => ('s', None),
        't' | 'ⓣ' | 'ｔ' | 'ṫ' | 'ẗ' | 'ť' | 'ṭ' | 'ț' | 'ţ' | 'ṱ' | 'ṯ' | 'ŧ' | 'ƭ' | 'ʈ' | 'ⱦ' | 'ꞇ' => ('t', None),
        'ꜩ' => ('t', Some('z')),
        'u' | 'ⓤ' | 'ｕ' | 'ù' | 'ú' | 'û' | 'ũ' | 'ṹ' | 'ū' | 'ṻ' | 'ŭ' | 'ü' | 'ǜ' | 'ǘ' | 'ǖ' | 'ǚ' | 'ủ' | 'ů' | 'ű' | 'ǔ' | 'ȕ' | 'ȗ' | 'ư' | 'ừ' | 'ứ' | 'ữ' | 'ử' | 'ự' | 'ụ' | 'ṳ' | 'ų' | 'ṷ' | 'ṵ' | 'ʉ' => ('u', None),
        'v' | 'ⓥ' | 'ｖ' | 'ṽ' | 'ṿ' | 'ʋ' | 'ꝟ' | 'ʌ' => ('v', None),
        'ꝡ' => ('v', Some('y')),
        'w' | 'ⓦ' | 'ｗ' | 'ẁ' | 'ẃ' | 'ŵ' | 'ẇ' | 'ẅ' | 'ẘ' | 'ẉ' | 'ⱳ' => ('w', None),
        'x' | 'ⓧ' | 'ｘ' | 'ẋ' | 'ẍ' => ('x', None),
        'y' | 'ⓨ' | 'ｙ' | 'ỳ' | 'ý' | 'ŷ' | 'ỹ' | 'ȳ' | 'ẏ' | 'ÿ' | 'ỷ' | 'ẙ' | 'ỵ' | 'ƴ' | 'ɏ' | 'ỿ' => ('y', None),
        'z' | 'ⓩ' | 'ｚ' | 'ź' | 'ẑ' | 'ż' | 'ž' | 'ẓ' | 'ẕ' | 'ƶ' | 'ȥ' | 'ɀ' | 'ⱬ' | 'ꝣ' => ('z', None),
        '·' | '/' | '_' | ',' | ':' | ';' | ' ' | '\n' | '\t' | '\r' => ('-', None),
        _ => (c, None),
    }
}

} // verus!
