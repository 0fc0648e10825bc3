use md2html::html::{escape_text, unescape_text, Element};
use md2html::replace::{replace_emoticons, replace_typographer};
use md2html::slug::{heading_to_slug, remove_diacritics};
use md2html::text::{count_words, replace_literal, usize_to_string};

#[test]
fn decimal_rendering() {
    assert_eq!(usize_to_string(0), "0");
    assert_eq!(usize_to_string(7), "7");
    assert_eq!(usize_to_string(120), "120");
    assert_eq!(usize_to_string(987654), "987654");
}

#[test]
fn word_counting() {
    assert_eq!(count_words(""), 0);
    assert_eq!(count_words("   "), 0);
    assert_eq!(count_words("one"), 1);
    assert_eq!(count_words("  a b\tc\nd  "), 4);
}

#[test]
fn escape_round_trip() {
    let original = "a < b && c > d & \"quotes\" &amp; tail";
    let escaped = escape_text(original);
    assert_eq!(
        escaped,
        "a &lt; b &amp;&amp; c &gt; d &amp; \"quotes\" &amp;amp; tail"
    );
    assert_eq!(unescape_text(&escaped), original);
}

#[test]
fn unescape_entities() {
    assert_eq!(unescape_text("&amp;lt;"), "&lt;");
    assert_eq!(unescape_text("x&gt;y&lt;z"), "x>y<z");
}

#[test]
fn typography_substitution() {
    assert_eq!(
        replace_typographer("Copyright (c) 2024... done"),
        "Copyright \u{a9} 2024\u{2026} done"
    );
    assert_eq!(replace_typographer("(TM) (r) (P) +-"), "\u{2122} \u{ae} \u{2117} \u{b1}");
    assert_eq!(replace_typographer("no tokens here"), "no tokens here");
    // four dots: the first three form the ellipsis, the fourth stays
    assert_eq!(replace_typographer("...."), "\u{2026}.");
}

#[test]
fn emoticon_substitution_bounded() {
    let out = replace_emoticons("feeling :) today").unwrap();
    assert_eq!(out, "feeling \u{1F603} today");
}

#[test]
fn emoticon_needs_boundaries() {
    let out = replace_emoticons("party:)time").unwrap();
    assert_eq!(out, "party:)time");
}

#[test]
fn emoticon_at_edges() {
    assert_eq!(replace_emoticons(":)").unwrap(), "\u{1F603}");
    assert_eq!(replace_emoticons("<3 you").unwrap(), "\u{2764}\u{fe0f} you");
    assert_eq!(replace_emoticons("so :-D").unwrap(), "so \u{1F604}");
}

#[test]
fn slug_generation() {
    let children = vec![Element::Text(String::from("H\u{e9}llo, World! 100%"))];
    let (id, title) = heading_to_slug(&children);
    assert_eq!(title, "H\u{e9}llo, World! 100%");
    assert_eq!(id, "hello-world-100");
}

#[test]
fn diacritic_folding() {
    assert_eq!(remove_diacritics("H\u{e9}llo"), "Hello");
    assert_eq!(remove_diacritics("\u{c6}on"), "Aon");
    assert_eq!(remove_diacritics("a/b_c,d"), "a-b-c-d");
    assert_eq!(remove_diacritics("\u{152}uvre"), "OEuvre");
}

#[test]
fn literal_replacement() {
    assert_eq!(
        replace_literal("a:-webkit-scrollbarb", ":-webkit-scrollbar", "::-webkit-scrollbar"),
        "a::-webkit-scrollbarb"
    );
    assert_eq!(replace_literal("aaa", "a", "bb"), "bbbbbb");
    assert_eq!(replace_literal("abc", "x", "y"), "abc");
}
