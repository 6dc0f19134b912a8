use text_caret::buffer::Buffer;
use text_caret::caret::{buffer_to_screen_column, screen_to_buffer_column};

#[test]
fn an_empty_text_is_one_empty_line() {
    let buffer = Buffer::from_text("").unwrap();
    assert_eq!(buffer.num_lines(), 1);
    assert_eq!(buffer.line_length(0), Some(0));
    assert_eq!(buffer.line_length(1), None);
}

#[test]
fn a_text_is_split_at_its_line_feeds() {
    let buffer = Buffer::from_text("one\nthree\n\nfour").unwrap();
    assert_eq!(buffer.num_lines(), 4);
    assert_eq!(buffer.line_length(0), Some(3));
    assert_eq!(buffer.line_length(1), Some(5));
    assert_eq!(buffer.line_length(2), Some(0));
    assert_eq!(buffer.line_length(3), Some(4));
    assert_eq!(buffer.line_length(4), None);
}

#[test]
fn a_line_feed_at_the_end_opens_a_last_empty_line() {
    let buffer = Buffer::from_text("one\n").unwrap();
    assert_eq!(buffer.num_lines(), 2);
    assert_eq!(buffer.line_length(0), Some(3));
    assert_eq!(buffer.line_length(1), Some(0));
    let buffer = Buffer::from_text("\n\n").unwrap();
    assert_eq!(buffer.num_lines(), 3);
}

#[test]
fn a_carriage_return_is_a_character_without_width() {
    let buffer = Buffer::from_text("ab\r\ncd").unwrap();
    assert_eq!(buffer.num_lines(), 2);
    assert_eq!(buffer.line_length(0), Some(3));
    assert_eq!(buffer_to_screen_column(0, 3, &buffer), 2);
}

#[test]
fn from_text_takes_each_width_from_the_character() {
    let text = Buffer::from_text("a右\u{301}\nxy").unwrap();
    let widths = Buffer::from_widths(vec![vec![1, 2, 0], vec![1, 1]]).unwrap();
    assert_eq!(text.num_lines(), widths.num_lines());
    for line in 0..3 {
        assert_eq!(text.line_length(line), widths.line_length(line));
        for column in 0..5 {
            assert_eq!(
                buffer_to_screen_column(line, column, &text),
                buffer_to_screen_column(line, column, &widths)
            );
            assert_eq!(
                screen_to_buffer_column(line, column, &text),
                screen_to_buffer_column(line, column, &widths)
            );
        }
    }
}

#[test]
fn from_widths_keeps_the_cells() {
    let buffer = Buffer::from_widths(vec![vec![1, 2, 0, 3], vec![], vec![2]]).unwrap();
    assert_eq!(buffer.num_lines(), 3);
    assert_eq!(buffer.line_length(0), Some(4));
    assert_eq!(buffer.line_length(1), Some(0));
    assert_eq!(buffer.line_length(2), Some(1));
    assert_eq!(buffer_to_screen_column(0, 4, &buffer), 6);
    assert_eq!(screen_to_buffer_column(0, 5, &buffer), Some(3));
    assert_eq!(screen_to_buffer_column(0, 3, &buffer), Some(3));
    assert_eq!(screen_to_buffer_column(0, 2, &buffer), Some(1));
}

#[test]
fn line_cells_are_the_widths_of_the_characters() {
    let buffer = Buffer::from_text("a右\u{301}\n\nxy").unwrap();
    assert_eq!(buffer.line_cells(0), Some(&vec![1, 2, 0]));
    assert_eq!(buffer.line_cells(1), Some(&vec![]));
    assert_eq!(buffer.line_cells(2), Some(&vec![1, 1]));
    assert_eq!(buffer.line_cells(3), None);
    let buffer = Buffer::from_widths(vec![vec![3, 0], vec![7]]).unwrap();
    assert_eq!(buffer.line_cells(0), Some(&vec![3, 0]));
    assert_eq!(buffer.line_cells(1), Some(&vec![7]));
    assert_eq!(buffer.line_cells(2), None);
}

#[test]
fn from_widths_needs_a_line() {
    assert!(Buffer::from_widths(vec![]).is_none());
    assert!(Buffer::from_widths(vec![vec![]]).is_some());
}

#[test]
fn from_widths_refuses_a_line_too_wide_to_count() {
    assert!(Buffer::from_widths(vec![vec![usize::MAX, 1]]).is_none());
    assert!(Buffer::from_widths(vec![vec![1], vec![usize::MAX - 1, 1, 1]]).is_none());
    let buffer = Buffer::from_widths(vec![vec![usize::MAX - 1, 1]]).unwrap();
    assert_eq!(buffer_to_screen_column(0, 2, &buffer), usize::MAX);
    assert_eq!(screen_to_buffer_column(0, usize::MAX - 1, &buffer), Some(1));
    assert_eq!(screen_to_buffer_column(0, usize::MAX, &buffer), Some(2));
}
