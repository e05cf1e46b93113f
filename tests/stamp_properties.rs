use stamp::pad::pad_lines;
use stamp::stamp::check_rectangle;
use stamp::{to_rectangle, Char, Stamp, StampError};

#[test]
fn round_trip_of_valid_blocks() {
    for s in ["a", "ab\ncd", "xa\u{0305}\nyb\u{0305}", "o o\n o "] {
        assert_eq!(Stamp::from_rectangle(s).ok().unwrap().render(), s);
    }
}

#[test]
fn padding_keeps_rectangular_text() {
    for s in ["a", "ab\ncd", "a\u{0305}b\ncd", "   \nabc"] {
        assert_eq!(to_rectangle(s).ok().unwrap(), s);
        assert_eq!(Stamp::new(s).ok().unwrap().render(), s);
    }
}

#[test]
fn padding_fills_short_lines() {
    let st = Stamp::new("a\n").ok().unwrap();
    assert_eq!(st.height(), 2);
    assert_eq!(st.width(), 1);
    assert_eq!(st.render(), "a\n ");
    assert_eq!(Stamp::new("\nab").ok().unwrap().render(), "  \nab");
}

#[test]
fn padding_measures_display_width() {
    // The combining macron adds no column, so the second line gets one space.
    assert_eq!(to_rectangle("a\u{0305}b\nc").ok().unwrap(), "a\u{0305}b\nc ");
}

#[test]
fn empty_text_is_rejected() {
    assert_eq!(Stamp::new("").err(), Some(StampError::EmptyInput));
    assert_eq!(to_rectangle("").err(), Some(StampError::EmptyInput));
    assert_eq!(Stamp::from_rectangle("").err(), Some(StampError::ZeroWidth));
}

#[test]
fn blank_first_row_is_zero_width() {
    assert_eq!(Stamp::from_rectangle("\na").err(), Some(StampError::ZeroWidth));
}

#[test]
fn unbalanced_rows_are_rejected() {
    assert_eq!(Stamp::from_rectangle("a\nbc").err(), Some(StampError::RowWidthMismatch));
    assert_eq!(Stamp::from_rectangle("ab\nc").err(), Some(StampError::RowWidthMismatch));
    assert_eq!(
        Stamp::from_rectangle("a\u{0305}\nbc").err(),
        Some(StampError::RowWidthMismatch)
    );
}

#[test]
fn wide_cluster_is_rejected() {
    // Both rows are three columns wide, but the first holds a two-column cell.
    assert_eq!(Stamp::from_rectangle("\u{4E2D}a\nbcd").err(), Some(StampError::InvalidCellWidth));
    assert_eq!(Stamp::new("\u{4E2D}").err(), Some(StampError::InvalidCellWidth));
}

#[test]
fn ligature_row_is_rejected() {
    // Lam followed by alef is one column wide, yet two clusters.
    assert_eq!(Stamp::from_rectangle("\u{0644}\u{0627}").err(), Some(StampError::InvalidCellWidth));
}

#[test]
fn layer_clips_at_edges() {
    let base = Stamp::from_rectangle("ooo\nooo").ok().unwrap();
    let top = Stamp::from_rectangle("xx\nxx\nxx").ok().unwrap();
    assert_eq!(base.layer(&top, 2, 1).ok().unwrap().render(), "ooo\noox");
    assert_eq!(base.layer(&top, 0, 0).ok().unwrap().render(), "xxo\nxxo");
}

#[test]
fn layer_keeps_combining_cells_whole() {
    let base = Stamp::from_rectangle("a\u{0305}bc").ok().unwrap();
    let top = Stamp::from_rectangle("x").ok().unwrap();
    assert_eq!(base.layer(&top, 1, 0).ok().unwrap().render(), "a\u{0305}xc");
    assert_eq!(base.layer(&top, 0, 0).ok().unwrap().render(), "xbc");
}

#[test]
fn layer_anchor_out_of_bounds() {
    let base = Stamp::from_rectangle("oooo\noooo\noooo").ok().unwrap();
    let top = Stamp::from_rectangle("x").ok().unwrap();
    assert_eq!(base.layer(&top, base.width(), 0).err(), Some(StampError::AnchorOutOfBounds));
    assert_eq!(base.layer(&top, 0, base.height()).err(), Some(StampError::AnchorOutOfBounds));
    assert!(base.layer(&top, base.width() - 1, base.height() - 1).is_ok());
}

#[test]
fn layer_leaves_inputs_unchanged() {
    let base = Stamp::from_rectangle("ooo\nooo").ok().unwrap();
    let top = Stamp::from_rectangle("xx").ok().unwrap();
    let out = base.layer(&top, 1, 1).ok().unwrap();
    assert_eq!(out.render(), "ooo\noxx");
    assert_eq!(base.render(), "ooo\nooo");
    assert_eq!(top.render(), "xx");
}

#[test]
fn dimensions_follow_construction() {
    let st = Stamp::from_rectangle("xa\u{0305}\nyb\u{0305}\nzc\u{0305}").ok().unwrap();
    assert_eq!(st.height(), 3);
    assert_eq!(st.width(), 2);
    let st = Stamp::new("abcd\ne").ok().unwrap();
    assert_eq!(st.height(), 2);
    assert_eq!(st.width(), 4);
}

#[test]
fn rows_are_cell_texts() {
    let st = Stamp::from_rectangle("xa\u{0305}\nyz").ok().unwrap();
    assert_eq!(st.rows(), vec!["xa\u{0305}".to_string(), "yz".to_string()]);
}

#[test]
fn clone_is_independent_copy() {
    let st = Stamp::from_rectangle("ab\ncd").ok().unwrap();
    let copy = st.clone();
    assert_eq!(copy.render(), "ab\ncd");
    assert_eq!(copy.width(), 2);
}

#[test]
fn cell_accepts_only_one_column() {
    assert_eq!(Char::new("a").ok().unwrap().to_string(), "a");
    assert_eq!(Char::new("a\u{0305}").ok().unwrap().to_string(), "a\u{0305}");
    assert_eq!(Char::new("\u{4E2D}").err(), Some(StampError::InvalidCellWidth));
    assert_eq!(Char::new("\u{0305}").err(), Some(StampError::InvalidCellWidth));
    assert_eq!(Char::new("").err(), Some(StampError::InvalidCellWidth));
}

#[test]
fn verdict_on_measured_rows() {
    assert_eq!(check_rectangle(&vec![], &vec![]), Err(StampError::NoRows));
    assert_eq!(check_rectangle(&vec![0], &vec![vec![]]), Err(StampError::ZeroWidth));
    assert_eq!(
        check_rectangle(&vec![2, 3], &vec![vec![1, 1], vec![1, 1, 1]]),
        Err(StampError::RowWidthMismatch)
    );
    assert_eq!(
        check_rectangle(&vec![2, 2], &vec![vec![1, 1], vec![2]]),
        Err(StampError::InvalidCellWidth)
    );
    assert_eq!(
        check_rectangle(&vec![2, 2], &vec![vec![1, 1], vec![1, 1, 0]]),
        Err(StampError::InvalidCellWidth)
    );
    assert_eq!(check_rectangle(&vec![2, 2], &vec![vec![1, 1], vec![1, 1]]), Ok(()));
}

#[test]
fn padding_of_measured_lines() {
    let lines = vec!["ab".to_string(), "".to_string(), "c".to_string()];
    assert_eq!(pad_lines(&lines, &vec![2, 0, 1]), "ab\n  \nc ");
    // The given widths decide, not the characters.
    assert_eq!(pad_lines(&lines, &vec![1, 0, 3]), "ab  \n   \nc");
}
