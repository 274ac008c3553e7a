use input_history::cursor::{cursor_column, INPUT_BOX_COLUMN};

#[test]
fn empty_buffer_puts_cursor_at_box_start() {
    assert_eq!(cursor_column(&Vec::new()), INPUT_BOX_COLUMN);
}

#[test]
fn ascii_characters_are_one_column_each() {
    assert_eq!(cursor_column(&vec!['a', 'b', 'c']), INPUT_BOX_COLUMN + 3);
}

#[test]
fn wide_character_takes_two_columns() {
    // A CJK ideograph is displayed two columns wide.
    assert_eq!(cursor_column(&vec!['\u{4E2D}']), INPUT_BOX_COLUMN + 2);
    assert_eq!(cursor_column(&vec!['a', '\u{4E2D}', 'b']), INPUT_BOX_COLUMN + 4);
}

#[test]
fn control_character_takes_no_column() {
    assert_eq!(cursor_column(&vec!['\t']), INPUT_BOX_COLUMN);
    assert_eq!(cursor_column(&vec!['a', '\u{7}']), INPUT_BOX_COLUMN + 1);
}

#[test]
fn combining_mark_takes_no_column() {
    // A combining acute accent overlays the previous character.
    assert_eq!(cursor_column(&vec!['e', '\u{301}']), INPUT_BOX_COLUMN + 1);
}
