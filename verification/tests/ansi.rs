use unicode_string::ansi::try_strip_ansi;
use unicode_string::unicode_string::UnicodeStringExt;

#[test]
fn strips_color_sequences() {
    let text = "\x1b[32mfoo\x1b[m bar";
    assert_eq!(try_strip_ansi(text), Some("foo bar".to_string()));
}

#[test]
fn plain_text_unchanged() {
    assert_eq!(try_strip_ansi("hello"), Some("hello".to_string()));
    assert_eq!(try_strip_ansi(""), Some("".to_string()));
}

#[test]
fn stripped_text_measures_plain() {
    let text = "\x1b[1m\x1b[31mHi\x1b[0m";
    let plain = try_strip_ansi(text).unwrap();
    let us = plain.unicode_string();
    assert_eq!(us.display_width, 2);
    assert_eq!(us.grapheme_cluster_segment_count, 2);
}
