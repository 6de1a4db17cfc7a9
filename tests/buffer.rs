use ls_pretty::buffer::{CursorDirection, EditableBuffer, EDIT_VISIBLE_LINES};

fn cursor(b: &EditableBuffer) -> (usize, usize, usize) {
    (b.cursor_offset(), b.cursor_line(), b.cursor_col())
}

fn buffer_at(text: &str, offset: usize) -> EditableBuffer {
    let mut b = EditableBuffer::new(text);
    for _ in 0..offset {
        b.move_cursor(CursorDirection::Right);
    }
    b
}

#[test]
fn moving_down_keeps_the_column() {
    let mut b = buffer_at("ab\ncd", 1);
    assert_eq!(cursor(&b), (1, 0, 1));
    b.move_cursor(CursorDirection::Down);
    assert_eq!(cursor(&b), (4, 1, 1));
}

#[test]
fn moving_down_clamps_to_a_shorter_line() {
    let mut b = buffer_at("abcd\nxy\n", 4);
    b.move_cursor(CursorDirection::Down);
    assert_eq!(cursor(&b), (7, 1, 2));
    b.move_cursor(CursorDirection::Down);
    assert_eq!(cursor(&b), (8, 2, 0));
    b.move_cursor(CursorDirection::Down);
    assert_eq!(cursor(&b), (8, 2, 0));
    b.move_cursor(CursorDirection::Up);
    assert_eq!(cursor(&b), (5, 1, 0));
    b.move_cursor(CursorDirection::Up);
    b.move_cursor(CursorDirection::Up);
    assert_eq!(cursor(&b), (0, 0, 0));
}

#[test]
fn left_and_right_cross_line_ends() {
    let mut b = buffer_at("ab\ncd", 2);
    assert_eq!(cursor(&b), (2, 0, 2));
    b.move_cursor(CursorDirection::Right);
    assert_eq!(cursor(&b), (3, 1, 0));
    b.move_cursor(CursorDirection::Left);
    assert_eq!(cursor(&b), (2, 0, 2));
    let mut start = EditableBuffer::new("ab");
    start.move_cursor(CursorDirection::Left);
    assert_eq!(cursor(&start), (0, 0, 0));
    let mut end = buffer_at("ab", 2);
    end.move_cursor(CursorDirection::Right);
    assert_eq!(cursor(&end), (2, 0, 2));
}

#[test]
fn typing_inserts_and_tracks_the_cursor() {
    let mut b = EditableBuffer::new("");
    assert_eq!(cursor(&b), (0, 0, 0));
    assert_eq!(b.last_line(), 0);
    b.insert_char('h');
    b.insert_char('i');
    b.insert_char('\n');
    b.insert_char('x');
    assert_eq!(b.content(), "hi\nx");
    assert_eq!(cursor(&b), (4, 1, 1));
    assert!(b.is_dirty());
    assert_eq!(b.last_line(), 1);
}

#[test]
fn control_characters_are_ignored() {
    let mut b = EditableBuffer::new("ab");
    b.insert_char('\t');
    b.insert_char('\u{1b}');
    b.insert_char('\r');
    assert_eq!(b.content(), "ab");
    assert_eq!(cursor(&b), (0, 0, 0));
    assert!(!b.is_dirty());
}

#[test]
fn backspace_joins_lines() {
    let mut b = buffer_at("ab\ncd", 3);
    b.delete_before_cursor();
    assert_eq!(b.content(), "abcd");
    assert_eq!(cursor(&b), (2, 0, 2));
    b.insert_char('\u{7f}');
    assert_eq!(b.content(), "acd");
    assert_eq!(cursor(&b), (1, 0, 1));
    b.insert_char('\u{8}');
    b.insert_char('\u{8}');
    assert_eq!(b.content(), "cd");
    assert_eq!(cursor(&b), (0, 0, 0));
}

#[test]
fn newline_then_backspace_restores() {
    let mut b = buffer_at("one\ntwo", 5);
    let before = (b.content(), cursor(&b));
    b.insert_char('\n');
    assert_eq!(b.content(), "one\nt\nwo");
    assert_eq!(cursor(&b), (6, 2, 0));
    b.delete_before_cursor();
    assert_eq!((b.content(), cursor(&b)), before);
}

#[test]
fn editing_back_to_the_saved_text_is_clean() {
    let mut b = EditableBuffer::new("ab");
    b.insert_char('x');
    assert!(b.is_dirty());
    b.delete_before_cursor();
    assert!(!b.is_dirty());
}

#[test]
fn revert_restores_the_saved_text() {
    let mut b = buffer_at("hello\nworld", 8);
    b.insert_char('!');
    b.insert_char('\n');
    b.delete_before_cursor();
    b.insert_char('?');
    assert!(b.is_dirty());
    b.revert();
    assert_eq!(b.content(), "hello\nworld");
    assert!(!b.is_dirty());
    assert_eq!((cursor(&b), b.scroll_offset()), ((0, 0, 0), 0));
}

#[test]
fn commit_save_makes_the_text_the_saved_one() {
    let mut b = EditableBuffer::new("a");
    b.insert_char('b');
    b.commit_save();
    assert!(!b.is_dirty());
    assert_eq!(b.original(), "ba");
    b.revert();
    assert_eq!(b.content(), "ba");
}

#[test]
fn mark_dirty_follows_the_text() {
    let mut b = EditableBuffer::new("a");
    b.mark_dirty();
    assert!(!b.is_dirty());
    b.insert_char('z');
    b.mark_dirty();
    assert!(b.is_dirty());
}

#[test]
fn ignored_keys_leave_the_flag_matching_the_text() {
    let mut b = EditableBuffer::new("ab");
    b.mark_dirty();
    b.insert_char('\u{3}');
    assert!(!b.is_dirty());
    b.delete_before_cursor();
    assert!(!b.is_dirty());
    assert_eq!(b.content(), "ab");
}

#[test]
fn window_follows_the_cursor() {
    let text = "x\n".repeat(40);
    let mut b = EditableBuffer::new(&text);
    for _ in 0..EDIT_VISIBLE_LINES {
        b.move_cursor(CursorDirection::Down);
    }
    assert_eq!(b.cursor_line(), 30);
    assert_eq!(b.scroll_offset(), 1);
    for _ in 0..5 {
        b.move_cursor(CursorDirection::Down);
    }
    assert_eq!(b.scroll_offset(), 6);
    for _ in 0..35 {
        b.move_cursor(CursorDirection::Up);
    }
    assert_eq!((b.cursor_line(), b.scroll_offset()), (0, 0));
}

#[test]
fn view_scrolling_stays_within_the_text() {
    let mut b = EditableBuffer::new("a\nb\nc");
    b.scroll_up();
    assert_eq!(b.scroll_offset(), 0);
    b.scroll_down();
    b.scroll_down();
    b.scroll_down();
    assert_eq!(b.scroll_offset(), 2);
    b.scroll_up();
    assert_eq!(b.scroll_offset(), 1);
}

#[test]
fn non_ascii_text_counts_characters() {
    let mut b = buffer_at("é\nü", 2);
    assert_eq!(cursor(&b), (2, 1, 0));
    b.insert_char('ß');
    assert_eq!(b.content(), "é\nßü");
    assert_eq!(cursor(&b), (3, 1, 1));
}
