use unicode_string::unicode_string::UnicodeString;
use unicode_string::unicode_string::UnicodeStringExt;

#[test]
fn hi_two_segments() {
    let us = "Hi".to_string().unicode_string();
    assert_eq!(us.grapheme_cluster_segment_count, 2);
    assert_eq!(us.vec_segment.len(), 2);
    assert_eq!(us.display_width, 2);
    assert_eq!(us.byte_size, 2);
    assert_eq!(us.vec_segment[0].string, "H");
    assert_eq!(us.vec_segment[1].string, "i");
    assert_eq!(us.vec_segment[0].unicode_width, 1);
    assert_eq!(us.vec_segment[1].unicode_width, 1);
    assert_eq!(us.vec_segment[0].display_col_offset, 0);
    assert_eq!(us.vec_segment[1].display_col_offset, 1);
    assert_eq!(us.vec_segment[0].logical_index, 0);
    assert_eq!(us.vec_segment[1].logical_index, 1);
    assert_eq!(us.vec_segment[0].byte_offset, 0);
    assert_eq!(us.vec_segment[1].byte_offset, 1);
}

#[test]
fn emoji_one_cluster() {
    let us = "😃".to_string().unicode_string();
    assert_eq!(us.grapheme_cluster_segment_count, 1);
    assert_eq!(us.vec_segment[0].unicode_width, 2);
    assert_eq!(us.vec_segment[0].byte_size, 4);
    assert_eq!(us.display_width, 2);
    assert_eq!(us.byte_size, 4);
}

#[test]
fn compound_emoji_one_cluster() {
    let us = "🙏🏽".to_string().unicode_string();
    assert_eq!(us.grapheme_cluster_segment_count, 1);
    assert_eq!(us.vec_segment[0].logical_index, 0);
    assert_eq!(us.vec_segment[0].unicode_width, 2);
    assert_eq!(us.vec_segment[0].byte_size, "🙏".len() + "🏽".len());
    assert_eq!(us.vec_segment[0].byte_size, 8);
}

#[test]
fn empty_string_zero_everything() {
    let us = "".to_string().unicode_string();
    assert_eq!(us.grapheme_cluster_segment_count, 0);
    assert_eq!(us.vec_segment.len(), 0);
    assert_eq!(us.byte_size, 0);
    assert_eq!(us.display_width, 0);
}

#[test]
fn mixed_width_offsets() {
    let us = "H😃i".to_string().unicode_string();
    assert_eq!(us.grapheme_cluster_segment_count, 3);
    assert_eq!(us.byte_size, 6);
    assert_eq!(us.display_width, 4);
    assert_eq!(us.vec_segment[0].byte_offset, 0);
    assert_eq!(us.vec_segment[1].byte_offset, 1);
    assert_eq!(us.vec_segment[2].byte_offset, 5);
    assert_eq!(us.vec_segment[0].display_col_offset, 0);
    assert_eq!(us.vec_segment[1].display_col_offset, 1);
    assert_eq!(us.vec_segment[2].display_col_offset, 3);
}

#[test]
fn segment_texts_rebuild_string() {
    for s in ["Hi", "H😃i", "🙏🏽", "", "a👨🏾b", "Ｈｅllo"] {
        let us = s.to_string().unicode_string();
        let mut rebuilt = String::new();
        for seg in &us.vec_segment {
            rebuilt.push_str(&seg.string);
        }
        assert_eq!(rebuilt, s);
    }
}

#[test]
fn byte_sizes_sum_to_length() {
    for s in ["Hi", "H😃i", "🙏🏽", "", "a👨🏾b"] {
        let us = s.to_string().unicode_string();
        let total: usize = us.vec_segment.iter().map(|seg| seg.byte_size).sum();
        assert_eq!(total, s.len());
        assert_eq!(us.byte_size, s.len());
    }
}

#[test]
fn col_offsets_are_prefix_width_sums() {
    for s in ["Hi", "H😃i", "🙏🏽", "a👨🏾b"] {
        let us = s.to_string().unicode_string();
        let mut acc: usize = 0;
        for seg in &us.vec_segment {
            assert_eq!(seg.display_col_offset, acc);
            acc += seg.unicode_width;
        }
        assert_eq!(us.display_width, acc);
    }
}

#[test]
fn width_functions() {
    assert_eq!(UnicodeString::char_display_width('H'), 1);
    assert_eq!(UnicodeString::char_display_width('😃'), 2);
    assert_eq!(UnicodeString::char_display_width('\u{0301}'), 0);
    assert_eq!(UnicodeString::str_display_width("Hi"), 2);
    assert_eq!(UnicodeString::str_display_width("😃"), 2);
    assert_eq!(UnicodeString::str_display_width(""), 0);
}
