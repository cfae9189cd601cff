use hue::textarea::{Line, TextArea};

#[test]
fn insert_and_string() {
    let mut ta = TextArea::new();
    ta.insert_text_at_cursor("héllo");
    assert_eq!(ta.string(), "héllo");
    assert_eq!(ta.cursor_position(), (0, 5));
}

#[test]
fn new_buffer_is_one_empty_line() {
    let ta = TextArea::new();
    assert_eq!(ta.line_count(), 1);
    assert_eq!(ta.string(), "");
    assert!(ta.is_empty());
    assert_eq!(ta.cursor_position(), (0, 0));
    assert_eq!(ta.frozen_position(), (0, 0));
}

#[test]
fn from_string_splits_lines() {
    let ta = TextArea::from_string("hello\nworld");
    assert_eq!(ta.line_count(), 2);
    assert_eq!(ta.string(), "hello\nworld");
    assert_eq!(ta.cursor_position(), (0, 0));
    assert_eq!(ta.line_length(1), Some(5));
    assert_eq!(ta.line_length(2), None);
    assert!(!ta.is_empty());
}

#[test]
fn from_string_drops_carriage_returns_and_final_newline() {
    let ta = TextArea::from_string("a\r\nb\n");
    assert_eq!(ta.line_count(), 2);
    assert_eq!(ta.string(), "a\nb");
}

#[test]
fn from_string_of_nothing_is_one_empty_line() {
    let ta = TextArea::from_string("");
    assert_eq!(ta.line_count(), 1);
    assert!(ta.is_empty());
}

#[test]
fn saving_a_file_just_opened_gives_its_text_back() {
    for text in ["ab\n\ncd", "", "one line", "x\ny\nz", "中文\n😀"] {
        assert_eq!(TextArea::from_string(text).string(), text);
    }
}

#[test]
fn insert_text_at_keeps_multibyte_characters_whole() {
    let mut ta = TextArea::new();
    ta.insert_text_at_cursor("héllo");
    ta.insert_text_at(0, 1, "XY");
    assert_eq!(ta.string(), "hXYéllo");
    assert_eq!(ta.cursor_position(), (0, 3));
    ta.insert_text_at(0, 4, "ü");
    assert_eq!(ta.string(), "hXYéüllo");
    assert_eq!(ta.cursor_position(), (0, 5));
}

#[test]
fn insert_text_past_the_end_appends() {
    let mut ta = TextArea::from_string("ab");
    ta.insert_text_at(0, 10, "c");
    assert_eq!(ta.string(), "abc");
    assert_eq!(ta.cursor_position(), (0, 11));
}

#[test]
fn insert_text_on_missing_line_does_nothing() {
    let mut ta = TextArea::from_string("ab");
    ta.insert_text_at(5, 0, "x");
    assert_eq!(ta.string(), "ab");
    assert_eq!(ta.cursor_position(), (0, 0));
}

#[test]
fn delete_chars_at_removes_characters_not_bytes() {
    let mut ta = TextArea::from_string("añbcd");
    ta.delete_chars_at(0, 1, 2);
    assert_eq!(ta.string(), "acd");
    assert_eq!(ta.cursor_position(), (0, 1));
    ta.delete_chars_at(0, 2, 5);
    assert_eq!(ta.string(), "ac");
}

#[test]
fn newline_splits_at_a_character() {
    let mut ta = TextArea::from_string("héllo");
    ta.goto_cursor(0, 2);
    ta.insert_newline_at_cursor();
    assert_eq!(ta.string(), "hé\nllo");
    assert_eq!(ta.cursor_position(), (1, 0));
    assert_eq!(ta.line_count(), 2);
}

#[test]
fn merge_lines_joins_the_next_line() {
    let mut ta = TextArea::from_string("ab\ncd\nef");
    ta.merge_lines_at(0);
    assert_eq!(ta.string(), "abcd\nef");
    assert_eq!(ta.cursor_position(), (0, 2));
    ta.merge_lines_at(1);
    assert_eq!(ta.string(), "abcd\nef");
}

#[test]
fn backspace_joins_lines_or_removes_a_character() {
    let mut ta = TextArea::from_string("abc\ndef");
    ta.goto_cursor(1, 0);
    ta.delete_char_before_cursor(true);
    assert_eq!(ta.string(), "abcdef");
    assert_eq!(ta.cursor_position(), (0, 3));
    ta.delete_char_before_cursor(false);
    assert_eq!(ta.string(), "abdef");
    assert_eq!(ta.cursor_position(), (0, 2));
    ta.goto_cursor(0, 0);
    ta.delete_char_before_cursor(true);
    assert_eq!(ta.string(), "abdef");
}

#[test]
fn delete_removes_under_the_cursor_or_joins() {
    let mut ta = TextArea::from_string("ab\ncd");
    ta.goto_cursor(0, 1);
    ta.delete_char_after_cursor(false);
    assert_eq!(ta.string(), "a\ncd");
    assert_eq!(ta.cursor_position(), (0, 1));
    ta.delete_char_after_cursor(false);
    assert_eq!(ta.string(), "a\ncd");
    ta.delete_char_after_cursor(true);
    assert_eq!(ta.string(), "acd");
    assert_eq!(ta.cursor_position(), (0, 1));
}

#[test]
fn delete_lines_at_cursor_cases() {
    let mut ta = TextArea::from_string("a\nb\nc\nd");
    ta.goto_cursor(1, 0);
    ta.delete_lines_at_cursor(2);
    assert_eq!(ta.string(), "a\nd");
    assert_eq!(ta.cursor_position(), (1, 0));
    ta.delete_lines_at_cursor(10);
    assert_eq!(ta.string(), "");
    assert_eq!(ta.line_count(), 1);
    assert_eq!(ta.cursor_position(), (0, 0));

    let mut last = TextArea::from_string("a\nb\nc");
    last.goto_cursor(2, 0);
    last.delete_lines_at_cursor(1);
    assert_eq!(last.string(), "a\nb");
    assert_eq!(last.cursor_position(), (1, 0));
}

#[test]
fn delete_to_start_and_end_of_line() {
    let mut ta = TextArea::from_string("hello");
    ta.goto_cursor(0, 2);
    ta.delete_to_start_of_line();
    assert_eq!(ta.string(), "llo");
    assert_eq!(ta.cursor_position(), (0, 0));

    let mut tb = TextArea::from_string("hello");
    tb.goto_cursor(0, 2);
    tb.delete_to_end_of_line();
    assert_eq!(tb.string(), "he");
    assert_eq!(tb.cursor_position(), (0, 1));
}

#[test]
fn new_lines_above_and_below() {
    let mut ta = TextArea::from_string("a\nb");
    ta.goto_cursor(1, 0);
    ta.new_line_above_cursor();
    assert_eq!(ta.string(), "a\n\nb");
    assert_eq!(ta.cursor_position(), (1, 0));
    ta.new_line_below_cursor();
    assert_eq!(ta.string(), "a\n\n\nb");
    assert_eq!(ta.cursor_position(), (2, 0));
}

#[test]
fn append_line_adds_a_last_line() {
    let mut ta = TextArea::new();
    ta.append_line("x");
    assert_eq!(ta.string(), "\nx");
    assert_eq!(ta.line_count(), 2);
    assert_eq!(ta.cursor_position(), (0, 0));
}

#[test]
fn goto_cursor_stays_on_a_character() {
    let mut ta = TextArea::from_string("abc\nde");
    ta.goto_cursor(5, 9);
    assert_eq!(ta.cursor_position(), (1, 1));
    ta.goto_cursor(0, 1);
    assert_eq!(ta.cursor_position(), (0, 1));
}

#[test]
fn vertical_moves_aim_for_the_preferred_column() {
    let mut ta = TextArea::from_string("abc\nd\nefgh");
    ta.goto_cursor(0, 2);
    ta.move_down_cursor();
    assert_eq!(ta.cursor_position(), (1, 0));
    ta.move_down_cursor();
    assert_eq!(ta.cursor_position(), (2, 2));
    ta.move_down_cursor();
    assert_eq!(ta.cursor_position(), (2, 2));
    ta.move_up_cursor();
    assert_eq!(ta.cursor_position(), (1, 0));
    ta.move_up_cursor();
    assert_eq!(ta.cursor_position(), (0, 2));
    ta.move_up_cursor();
    assert_eq!(ta.cursor_position(), (0, 2));
}

#[test]
fn horizontal_moves() {
    let mut ta = TextArea::from_string("abc");
    ta.goto_cursor(0, 2);
    ta.move_right1_cursor();
    assert_eq!(ta.cursor_position(), (0, 2));
    ta.move_left_cursor();
    assert_eq!(ta.cursor_position(), (0, 1));
    ta.move_right1_cursor();
    assert_eq!(ta.cursor_position(), (0, 2));
    ta.move_right_cursor();
    assert_eq!(ta.cursor_position(), (0, 3));
    ta.move_right_cursor();
    assert_eq!(ta.cursor_position(), (0, 3));
    ta.move_left_cursor();
    ta.move_left_cursor();
    ta.move_left_cursor();
    ta.move_left_cursor();
    assert_eq!(ta.cursor_position(), (0, 0));
}

#[test]
fn first_non_blank_skips_unicode_white_space() {
    let mut ta = TextArea::from_string("  \tx y");
    ta.first_non_blank_of_line_cursor();
    assert_eq!(ta.cursor_position(), (0, 3));
    let mut blank = TextArea::from_string("   ");
    blank.goto_cursor(0, 2);
    blank.first_non_blank_of_line_cursor();
    assert_eq!(blank.cursor_position(), (0, 0));
    let mut wide = TextArea::from_string("\u{3000}a");
    wide.first_non_blank_of_line_cursor();
    assert_eq!(wide.cursor_position(), (0, 1));
}

#[test]
fn line_start_end_and_offset() {
    let mut ta = TextArea::from_string("hello");
    ta.end_of_line_cursor();
    assert_eq!(ta.cursor_position(), (0, 5));
    ta.end_offset_of_line_cursor(1);
    assert_eq!(ta.cursor_position(), (0, 4));
    ta.end_offset_of_line_cursor(9);
    assert_eq!(ta.cursor_position(), (0, 0));
    ta.end_of_line_cursor();
    ta.start_of_line_cursor();
    assert_eq!(ta.cursor_position(), (0, 0));
}

#[test]
fn clamping_the_cursor() {
    let mut ta = TextArea::from_string("abc");
    ta.insert_text_at(0, 10, "");
    assert_eq!(ta.cursor_position(), (0, 10));
    ta.clamp_cursor();
    assert_eq!(ta.cursor_position(), (0, 3));
    ta.clamp1_cursor();
    assert_eq!(ta.cursor_position(), (0, 2));
}

#[test]
fn prefix_and_slices_count_characters() {
    let mut ta = TextArea::from_string("héllo");
    ta.goto_cursor(0, 3);
    assert_eq!(ta.cursor_prefix_string(), "hél");
    assert_eq!(ta.line_string_slice(0, 1, 2), Some("él".to_string()));
    assert_eq!(ta.line_string_slice(0, 4, 2), None);
    assert_eq!(ta.line_string_slice(1, 0, 0), None);
    assert_eq!(ta.line_string_slice(0, 5, 0), Some(String::new()));
}

#[test]
fn prompt_text_cannot_be_deleted_or_entered() {
    let mut ta = TextArea::from_prompt("Name: ");
    assert_eq!(ta.cursor_position(), (0, 6));
    assert_eq!(ta.frozen_position(), (0, 6));
    ta.insert_text_at_cursor("ab");
    assert_eq!(ta.string(), "Name: ab");
    ta.delete_char_before_cursor(true);
    assert_eq!(ta.string(), "Name: a");
    ta.delete_char_before_cursor(true);
    ta.delete_char_before_cursor(true);
    assert_eq!(ta.string(), "Name: ");
    ta.move_left_cursor();
    assert_eq!(ta.cursor_position(), (0, 6));

    let mut two = TextArea::from_prompt("x\ny");
    assert_eq!(two.cursor_position(), (1, 1));
    two.move_up_cursor();
    assert_eq!(two.cursor_position(), (1, 1));
}

#[test]
fn multiline_text_above_and_below() {
    let mut ta = TextArea::from_string("a\nb");
    ta.goto_cursor(1, 0);
    ta.insert_multiline_text_above_cursor("x\ny");
    assert_eq!(ta.string(), "a\nx\ny\nb");
    assert_eq!(ta.cursor_position(), (1, 0));

    let mut tb = TextArea::from_string("a\nb");
    tb.insert_multiline_text_below_cursor("x\ny");
    assert_eq!(tb.string(), "a\nx\ny\nb");
    assert_eq!(tb.cursor_position(), (1, 0));
}

#[test]
fn insert_lines_at_a_row_or_at_the_end() {
    let mut ta = TextArea::from_string("a\nb");
    ta.insert_lines_at(1, vec!["x".to_string(), "y".to_string()]);
    assert_eq!(ta.string(), "a\nx\ny\nb");
    ta.insert_lines_at(99, vec!["z".to_string()]);
    assert_eq!(ta.string(), "a\nx\ny\nb\nz");
}

#[test]
fn strings_from_a_row_and_before_the_cursor() {
    let ta = TextArea::from_string("a\nb\nc");
    assert_eq!(ta.string_with_row_offset(1), "b\nc");
    assert_eq!(ta.string_with_row_offset(5), "");

    let mut tb = TextArea::from_string("a\n\nc\nd");
    tb.goto_cursor(3, 0);
    assert_eq!(tb.measure_lines_before_cursor_string(0), "a\nMg\nc");
    assert_eq!(tb.measure_lines_before_cursor_string(1), "Mg\nc");
    assert_eq!(tb.measure_lines_before_cursor_string(5), "");
}

#[test]
fn lines_with_copies_up_to_count_lines() {
    let ta = TextArea::from_string("a\nb\nc");
    assert_eq!(ta.lines_with(1, 5), vec!["b".to_string(), "c".to_string()]);
    assert_eq!(ta.lines_with(0, 0), Vec::<String>::new());
    assert_eq!(ta.lines_with(7, 1), Vec::<String>::new());
}

#[test]
fn line_insert_and_delete_by_characters() {
    let mut line = Line::new("héllo".to_string());
    assert_eq!(line.length(), 5);
    line.insert_text("中", 1);
    assert_eq!(line.length(), 6);
    line.delete_text(0, 2);
    assert_eq!(line.length(), 4);
    line.delete_text(3, 10);
    assert_eq!(line.length(), 3);
}

#[test]
fn line_count_is_line_feeds_plus_one() {
    for text in ["", "a", "a\nb", "\n\nx\n\n", "中\n文"] {
        let mut ta = TextArea::from_string(text);
        ta.goto_cursor(0, 0);
        ta.insert_newline_at_cursor();
        ta.append_line("z");
        assert_eq!(ta.line_count(), ta.string().matches('\n').count() + 1, "text {:?}", text);
    }
}
