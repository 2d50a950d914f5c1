use unicode_string::unicode_string::UnicodeStringExt;

#[test]
fn insert_inside() {
    let us = "Hi".to_string().unicode_string();
    let (new_string, width) = us.insert_char_at_display_col(1, "X");
    assert_eq!(new_string, "HXi");
    assert_eq!(width, 1);
}

#[test]
fn insert_at_start() {
    let us = "Hi".to_string().unicode_string();
    let (new_string, width) = us.insert_char_at_display_col(0, "😃");
    assert_eq!(new_string, "😃Hi");
    assert_eq!(width, 2);
}

#[test]
fn insert_past_end_appends() {
    let us = "Hi".to_string().unicode_string();
    let (new_string, width) = us.insert_char_at_display_col(2, "!");
    assert_eq!(new_string, "Hi!");
    assert_eq!(width, 1);
    let (far, far_width) = us.insert_char_at_display_col(99, "?");
    assert_eq!(far, "Hi?");
    assert_eq!(far_width, 1);
}

#[test]
fn insert_inside_keeps_first_cluster_only() {
    let us = "Hi".to_string().unicode_string();
    let (new_string, width) = us.insert_char_at_display_col(0, "ab");
    assert_eq!(new_string, "aHi");
    assert_eq!(width, 1);
}

#[test]
fn split_simple() {
    let us = "Hi".to_string().unicode_string();
    let ((left, left_width), (right, right_width)) = us.split_at_display_col(1).unwrap();
    assert_eq!(left, "H");
    assert_eq!(left_width, 1);
    assert_eq!(right, "i");
    assert_eq!(right_width, 1);
}

#[test]
fn split_at_zero_puts_all_right() {
    let us = "Hi".to_string().unicode_string();
    let ((left, left_width), (right, right_width)) = us.split_at_display_col(0).unwrap();
    assert_eq!(left, "");
    assert_eq!(left_width, 0);
    assert_eq!(right, "Hi");
    assert_eq!(right_width, 2);
}

#[test]
fn split_never_bisects_cluster() {
    let us = "H😃".to_string().unicode_string();
    // column 2 is the second column of the emoji: the whole cluster moves right
    let ((left, left_width), (right, right_width)) = us.split_at_display_col(2).unwrap();
    assert_eq!(left, "H");
    assert_eq!(left_width, 1);
    assert_eq!(right, "😃");
    assert_eq!(right_width, 2);
}

#[test]
fn split_out_of_range_is_none() {
    let us = "Hi".to_string().unicode_string();
    assert!(us.split_at_display_col(2).is_none());
    assert!(us.split_at_display_col(50).is_none());
}

#[test]
fn split_round_trip() {
    for s in ["Hi", "H😃i", "a🙏🏽b"] {
        let us = s.to_string().unicode_string();
        for col in 0..us.display_width {
            let ((left, _), (right, _)) = us.split_at_display_col(col).unwrap();
            assert_eq!(format!("{left}{right}"), s);
        }
    }
}

#[test]
fn delete_sole_cluster_leaves_empty() {
    let us = "H".to_string().unicode_string();
    assert_eq!(us.delete_char_at_display_col(0), Some(("".to_string(), 0)));
}

#[test]
fn delete_wide_cluster() {
    let us = "H😃i".to_string().unicode_string();
    assert_eq!(
        us.delete_char_at_display_col(1),
        Some(("Hi".to_string(), 2))
    );
    assert_eq!(
        us.delete_char_at_display_col(2),
        Some(("Hi".to_string(), 2))
    );
    assert_eq!(
        us.delete_char_at_display_col(0),
        Some(("😃i".to_string(), 3))
    );
}

#[test]
fn delete_out_of_range_is_none() {
    let us = "Hi".to_string().unicode_string();
    assert_eq!(us.delete_char_at_display_col(2), None);
    let sole = "H".to_string().unicode_string();
    assert_eq!(sole.delete_char_at_display_col(5), None);
}

#[test]
fn merge_concatenates() {
    let us = "He".to_string().unicode_string();
    let other = "llo".to_string().unicode_string();
    assert_eq!(us.merge_with(other), Some("Hello".to_string()));
}
