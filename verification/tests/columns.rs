use text_caret::buffer::Buffer;
use text_caret::caret::{buffer_to_screen_column, screen_to_buffer_column};
use text_caret::width::cell_width_of;

#[test]
fn widths_of_characters() {
    assert_eq!(cell_width_of('a'), 1);
    assert_eq!(cell_width_of(' '), 1);
    assert_eq!(cell_width_of('右'), 2);
    assert_eq!(cell_width_of('、'), 2);
    assert_eq!(cell_width_of('\n'), 0);
    assert_eq!(cell_width_of('\t'), 0);
    assert_eq!(cell_width_of('\u{0}'), 0);
    assert_eq!(cell_width_of('\u{301}'), 0);
    assert_eq!(cell_width_of('é'), 1);
}

#[test]
fn buffer_to_screen_column_sums_the_widths_before_the_column() {
    let buffer = Buffer::from_text("a右b\nxyz").unwrap();
    assert_eq!(buffer_to_screen_column(0, 0, &buffer), 0);
    assert_eq!(buffer_to_screen_column(0, 1, &buffer), 1);
    assert_eq!(buffer_to_screen_column(0, 2, &buffer), 3);
    assert_eq!(buffer_to_screen_column(0, 3, &buffer), 4);
    assert_eq!(buffer_to_screen_column(1, 2, &buffer), 2);
}

#[test]
fn buffer_to_screen_column_past_the_end_is_the_screen_length() {
    let buffer = Buffer::from_text("a右b\nxyz").unwrap();
    assert_eq!(buffer_to_screen_column(0, 4, &buffer), 4);
    assert_eq!(buffer_to_screen_column(0, usize::MAX, &buffer), 4);
    assert_eq!(buffer_to_screen_column(1, 17, &buffer), 3);
}

#[test]
fn buffer_to_screen_column_of_a_missing_line_is_zero() {
    let buffer = Buffer::from_text("a右b\nxyz").unwrap();
    assert_eq!(buffer_to_screen_column(2, 0, &buffer), 0);
    assert_eq!(buffer_to_screen_column(2, 5, &buffer), 0);
    assert_eq!(buffer_to_screen_column(usize::MAX, 1, &buffer), 0);
}

#[test]
fn screen_to_buffer_column_counts_the_characters_that_fit() {
    let buffer = Buffer::from_text("a右b\nxyz").unwrap();
    assert_eq!(screen_to_buffer_column(0, 0, &buffer), Some(0));
    assert_eq!(screen_to_buffer_column(0, 1, &buffer), Some(1));
    assert_eq!(screen_to_buffer_column(0, 2, &buffer), Some(1));
    assert_eq!(screen_to_buffer_column(0, 3, &buffer), Some(2));
    assert_eq!(screen_to_buffer_column(0, 4, &buffer), Some(3));
    assert_eq!(screen_to_buffer_column(0, 5, &buffer), Some(3));
    assert_eq!(screen_to_buffer_column(0, usize::MAX, &buffer), Some(3));
    assert_eq!(screen_to_buffer_column(1, 1, &buffer), Some(1));
}

#[test]
fn screen_to_buffer_column_of_a_missing_line_is_none() {
    let buffer = Buffer::from_text("a右b\nxyz").unwrap();
    assert_eq!(screen_to_buffer_column(2, 0, &buffer), None);
    assert_eq!(screen_to_buffer_column(usize::MAX, 3, &buffer), None);
}

#[test]
fn screen_to_buffer_column_of_an_empty_line_is_zero() {
    let buffer = Buffer::from_text("\nabc").unwrap();
    assert_eq!(screen_to_buffer_column(0, 0, &buffer), Some(0));
    assert_eq!(screen_to_buffer_column(0, 9, &buffer), Some(0));
}

#[test]
fn the_line_terminator_has_neither_width_nor_count() {
    let buffer = Buffer::from_text("abc\nde\n").unwrap();
    assert_eq!(buffer.line_length(0), Some(3));
    assert_eq!(buffer_to_screen_column(0, 4, &buffer), 3);
    assert_eq!(screen_to_buffer_column(0, 3, &buffer), Some(3));
    assert_eq!(screen_to_buffer_column(0, 4, &buffer), Some(3));
}

#[test]
fn characters_without_width_count_as_characters() {
    // e, a combining accent, x
    let buffer = Buffer::from_text("e\u{301}x").unwrap();
    assert_eq!(buffer.line_length(0), Some(3));
    assert_eq!(buffer_to_screen_column(0, 1, &buffer), 1);
    assert_eq!(buffer_to_screen_column(0, 2, &buffer), 1);
    assert_eq!(buffer_to_screen_column(0, 3, &buffer), 2);
    assert_eq!(screen_to_buffer_column(0, 0, &buffer), Some(0));
    assert_eq!(screen_to_buffer_column(0, 1, &buffer), Some(2));
    assert_eq!(screen_to_buffer_column(0, 2, &buffer), Some(3));
    // a tab is a control character
    let buffer = Buffer::from_text("\tx").unwrap();
    assert_eq!(buffer_to_screen_column(0, 1, &buffer), 0);
    assert_eq!(buffer_to_screen_column(0, 2, &buffer), 1);
    assert_eq!(screen_to_buffer_column(0, 0, &buffer), Some(1));
}

#[test]
fn there_and_back_keeps_the_order_of_columns() {
    let buffer = Buffer::from_text("a右\u{301}b足\tc\nxyz").unwrap();
    let mut last = 0;
    for column in 0..12 {
        let screen = buffer_to_screen_column(0, column, &buffer);
        let back = screen_to_buffer_column(0, screen, &buffer).unwrap();
        assert!(last <= back);
        last = back;
    }
    assert_eq!(last, 7);
}

#[test]
fn there_and_back_in_single_cells_is_the_same_column() {
    let buffer = Buffer::from_text("you put your right foot in\n").unwrap();
    for column in 0..=26 {
        assert_eq!(buffer_to_screen_column(0, column, &buffer), column);
        assert_eq!(screen_to_buffer_column(0, column, &buffer), Some(column));
    }
    // single cells up to the column, and a mark without width on it
    let buffer = Buffer::from_text("ab\u{301}").unwrap();
    assert_eq!(buffer_to_screen_column(0, 2, &buffer), 2);
    assert_eq!(screen_to_buffer_column(0, 2, &buffer), Some(3));
}

#[test]
fn a_screen_column_within_a_wide_character_maps_to_that_character() {
    let buffer = Buffer::from_text("右足").unwrap();
    assert_eq!(screen_to_buffer_column(0, 0, &buffer), Some(0));
    assert_eq!(screen_to_buffer_column(0, 1, &buffer), Some(0));
    assert_eq!(screen_to_buffer_column(0, 2, &buffer), Some(1));
    assert_eq!(screen_to_buffer_column(0, 3, &buffer), Some(1));
    assert_eq!(screen_to_buffer_column(0, 4, &buffer), Some(2));
}
