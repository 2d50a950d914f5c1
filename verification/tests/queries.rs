use unicode_string::unicode_string::Size;
use unicode_string::unicode_string::UnicodeStringExt;

#[test]
fn logical_index_lookup() {
    let us = "H😃".to_string().unicode_string();
    assert_eq!(us.at_logical_index(0).unwrap().string, "H");
    assert_eq!(us.at_logical_index(1).unwrap().string, "😃");
    assert!(us.at_logical_index(2).is_none());
}

#[test]
fn display_col_lookup_covers_wide_cluster() {
    let us = "H😃".to_string().unicode_string();
    assert_eq!(us.at_display_col(0).unwrap().string, "H");
    // both columns of the 2-column cluster answer with the same segment
    assert_eq!(us.at_display_col(1).unwrap().string, "😃");
    assert_eq!(us.at_display_col(2).unwrap().string, "😃");
    assert!(us.at_display_col(3).is_none());
}

#[test]
fn index_and_column_translation() {
    let us = "H😃i".to_string().unicode_string();
    assert_eq!(us.logical_index_at_display_col(0), Some(0));
    assert_eq!(us.logical_index_at_display_col(1), Some(1));
    assert_eq!(us.logical_index_at_display_col(2), Some(1));
    assert_eq!(us.logical_index_at_display_col(3), Some(2));
    assert_eq!(us.logical_index_at_display_col(4), None);
    assert_eq!(us.display_col_at_logical_index(0), Some(0));
    assert_eq!(us.display_col_at_logical_index(1), Some(1));
    assert_eq!(us.display_col_at_logical_index(2), Some(3));
    assert_eq!(us.display_col_at_logical_index(3), None);
}

#[test]
fn string_at_display_col() {
    let us = "H😃".to_string().unicode_string();
    assert_eq!(us.get_string_at_display_col(2), Some(("😃".to_string(), 2)));
    assert_eq!(us.get_string_at_display_col(3), None);
}

#[test]
fn string_left_of_display_col() {
    let us = "H😃".to_string().unicode_string();
    assert_eq!(us.get_string_at_left_of_display_col(0), None);
    assert_eq!(
        us.get_string_at_left_of_display_col(1),
        Some(("H".to_string(), 1))
    );
    assert_eq!(us.get_string_at_left_of_display_col(9), None);
}

#[test]
fn string_at_end() {
    let us = "H😃".to_string().unicode_string();
    assert_eq!(us.get_string_at_end(), Some(("😃".to_string(), 2)));
    let empty = "".to_string().unicode_string();
    assert_eq!(empty.get_string_at_end(), None);
}

#[test]
fn truncate_keeps_whole_clusters() {
    let us = "Hi😃".to_string().unicode_string();
    assert_eq!(us.truncate_to_fit_display_cols(0), "");
    assert_eq!(us.truncate_to_fit_display_cols(1), "H");
    assert_eq!(us.truncate_to_fit_display_cols(2), "Hi");
    // the 2-column emoji does not fit in the single remaining column
    assert_eq!(us.truncate_to_fit_display_cols(3), "Hi");
    assert_eq!(us.truncate_to_fit_display_cols(4), "Hi😃");
    assert_eq!(us.truncate_to_fit_display_cols(100), "Hi😃");
}

#[test]
fn truncate_never_exceeds_budget() {
    let us = "a😃b🙏🏽c".to_string().unicode_string();
    for w in 0..10 {
        let prefix = us.truncate_to_fit_display_cols(w);
        let pw = prefix.to_string().unicode_string().display_width;
        assert!(pw <= w);
    }
}

#[test]
fn truncate_to_size() {
    let us = "Hi😃".to_string().unicode_string();
    let size = Size { col: 3, row: 10 };
    assert_eq!(us.truncate_to_fit_size(size), "Hi");
}
