use hue::directory::DirEntry;
use hue::editor::{
    caret_visible, Action, Editor, Key, NamedKey, Outcome, VimMode, HEADER_END, HEADER_START,
};

const PROMPT: &str = "Enter new filename: ";

fn ch(s: &str) -> Key {
    Key::Character(s.to_string())
}

fn named(k: NamedKey) -> Key {
    Key::Named(k)
}

fn press(e: &mut Editor, key: Key) -> Outcome {
    assert!(e.key_is_safe(&key, false));
    e.handle_key(&key, false)
}

fn type_keys(e: &mut Editor, keys: &str) {
    for c in keys.chars() {
        press(e, ch(&c.to_string()));
    }
}

fn entry(name: &str, size: u64, is_dir: bool) -> DirEntry {
    DirEntry {
        name: name.to_string(),
        size,
        is_dir,
        modified: "2024-05-06 07:08:09".to_string(),
    }
}

fn editing(text: &str) -> Editor {
    let mut e = Editor::new(PROMPT);
    e.open_file_text(text);
    e
}

fn buffer(e: &Editor) -> String {
    e.text_area().string()
}

fn listed() -> Editor {
    let mut e = Editor::new(PROMPT);
    e.update_fileinfos(
        "/work",
        vec![entry("docs", 4096, true), entry("a.txt", 12, false)],
    );
    e
}

#[test]
fn new_editor_starts_in_directory_mode() {
    let e = Editor::new(PROMPT);
    assert_eq!(e.mode(), VimMode::Directory);
    assert_eq!(buffer(&e), "");
    assert!(e.text_input().is_none());
    assert_eq!(e.scroll_row_position(), 0);
    assert_eq!(e.view_rows(), 0);
}

#[test]
fn mode_names() {
    assert_eq!(VimMode::Directory.name(), "Directory");
    assert_eq!(VimMode::Command.name(), "Command");
    assert_eq!(VimMode::CommandLine.name(), "CommandLine");
    assert_eq!(VimMode::Insert.name(), "Insert");
    assert_eq!(VimMode::Visual.name(), "Visual");
}

#[test]
fn listing_shows_header_dot_entries_and_rows() {
    let e = listed();
    let header = format!("{}/work{}", HEADER_START, HEADER_END);
    let expected = format!(
        "{}d .\nd ..\n{}\n{}",
        &header[..header.len() - 1],
        format!("{} {:<20} {:>10} {}", "-", "a.txt", 12, "2024-05-06 07:08:09"),
        format!("{} {:<20} {:>10} {}", "d", "docs", 4096, "2024-05-06 07:08:09"),
    );
    assert_eq!(buffer(&e), expected);
    assert_eq!(e.text_area().cursor_position(), (5, 0));
    assert_eq!(e.text_area().line_count(), 9);
}

#[test]
fn enter_on_listing_rows_asks_for_the_right_action() {
    let mut e = listed();
    let here = press(&mut e, named(NamedKey::Enter));
    assert!(matches!(here.action, Action::Nothing));
    press(&mut e, ch("j"));
    let up = press(&mut e, named(NamedKey::Enter));
    assert!(matches!(up.action, Action::ParentDirectory));
    press(&mut e, ch("j"));
    match press(&mut e, named(NamedKey::Enter)).action {
        Action::OpenFile(name) => assert_eq!(name, "a.txt"),
        _ => panic!("expected a file to open"),
    }
    press(&mut e, ch("j"));
    match press(&mut e, named(NamedKey::Enter)).action {
        Action::EnterDirectory(name) => assert_eq!(name, "docs"),
        _ => panic!("expected a directory to enter"),
    }
    assert_eq!(e.mode(), VimMode::Directory);
}

#[test]
fn listing_cursor_cannot_leave_the_rows() {
    let mut e = listed();
    press(&mut e, ch("k"));
    assert_eq!(e.text_area().cursor_position(), (5, 0));
    press(&mut e, ch("G"));
    assert_eq!(e.text_area().cursor_position(), (8, 0));
    let out = press(&mut e, ch("l"));
    assert!(out.reset_blink);
    assert_eq!(e.text_area().cursor_position(), (8, 1));
    press(&mut e, ch("h"));
    assert_eq!(e.text_area().cursor_position(), (8, 0));
}

#[test]
fn new_file_name_is_typed_after_the_prompt() {
    let mut e = listed();
    press(&mut e, ch("n"));
    assert!(e.text_input().is_some());
    type_keys(&mut e, "new.txx");
    press(&mut e, named(NamedKey::Backspace));
    press(&mut e, ch("t"));
    assert_eq!(e.text_input().unwrap().string(), "Enter new filename: new.txt");
    match press(&mut e, named(NamedKey::Enter)).action {
        Action::CreateFile(name) => assert_eq!(name, "new.txt"),
        _ => panic!("expected a file to create"),
    }
    e.start_new_file();
    assert_eq!(e.mode(), VimMode::Command);
    assert_eq!(buffer(&e), "");
    assert!(e.text_input().is_none());
}

#[test]
fn escape_closes_the_name_prompt() {
    let mut e = listed();
    press(&mut e, ch("n"));
    let out = press(&mut e, named(NamedKey::Escape));
    assert!(out.reset_blink);
    assert!(e.text_input().is_none());
    assert_eq!(e.mode(), VimMode::Directory);
}

#[test]
fn opening_a_file_enters_command_mode() {
    let e = editing("hello\nworld");
    assert_eq!(e.mode(), VimMode::Command);
    assert_eq!(buffer(&e), "hello\nworld");
    assert_eq!(e.text_area().cursor_position(), (0, 0));
}

#[test]
fn typed_text_is_undone_as_one_block() {
    let mut e = editing("hello\nworld");
    press(&mut e, ch("i"));
    assert_eq!(e.mode(), VimMode::Insert);
    press(&mut e, ch("X"));
    press(&mut e, ch("Y"));
    assert_eq!(buffer(&e), "XYhello\nworld");
    press(&mut e, named(NamedKey::Escape));
    assert_eq!(e.mode(), VimMode::Command);
    press(&mut e, ch("u"));
    assert_eq!(buffer(&e), "hello\nworld");
    assert_eq!(e.text_area().cursor_position(), (0, 0));
}

#[test]
fn spaces_are_typed_but_not_recorded_for_undo() {
    let mut e = editing("ab");
    press(&mut e, ch("a"));
    assert_eq!(e.text_area().cursor_position(), (0, 1));
    press(&mut e, named(NamedKey::Enter));
    assert_eq!(buffer(&e), "a\nb");
    press(&mut e, named(NamedKey::Space));
    assert_eq!(buffer(&e), "a\n b");
    press(&mut e, named(NamedKey::Backspace));
    press(&mut e, named(NamedKey::Backspace));
    assert_eq!(buffer(&e), "ab");
    press(&mut e, named(NamedKey::Escape));
    press(&mut e, ch("u"));
    assert_eq!(buffer(&e), "a b");
}

#[test]
fn delete_key_in_insert_mode() {
    let mut e = editing("abc\nd");
    press(&mut e, ch("i"));
    press(&mut e, named(NamedKey::Delete));
    assert_eq!(buffer(&e), "bc\nd");
    press(&mut e, named(NamedKey::Escape));
    press(&mut e, ch("A"));
    press(&mut e, named(NamedKey::Delete));
    assert_eq!(buffer(&e), "bcd");
    press(&mut e, named(NamedKey::Escape));
    press(&mut e, ch("u"));
    assert_eq!(buffer(&e), "bc\nd");
    press(&mut e, ch("u"));
    assert_eq!(buffer(&e), "abc\nd");
}

#[test]
fn control_bracket_leaves_insert_mode() {
    let mut e = editing("abc");
    press(&mut e, ch("A"));
    assert_eq!(e.text_area().cursor_position(), (0, 3));
    let key = ch("[");
    assert!(e.key_is_safe(&key, true));
    e.handle_key(&key, true);
    assert_eq!(e.mode(), VimMode::Command);
    assert_eq!(e.text_area().cursor_position(), (0, 2));
    assert_eq!(buffer(&e), "abc");
}

#[test]
fn dd_deletes_copies_and_is_undone() {
    let mut e = editing("hello\nworld");
    type_keys(&mut e, "dd");
    assert_eq!(buffer(&e), "world");
    type_keys(&mut e, "p");
    assert_eq!(buffer(&e), "world\nhello");
    type_keys(&mut e, "u");
    assert_eq!(buffer(&e), "world");
    type_keys(&mut e, "u");
    assert_eq!(buffer(&e), "hello\nworld");
}

#[test]
fn counts_apply_to_line_commands() {
    let mut e = editing("a\nb\nc");
    type_keys(&mut e, "2dd");
    assert_eq!(buffer(&e), "c");
    let mut f = editing("a\nb\nc");
    type_keys(&mut f, "2yyG");
    assert_eq!(f.text_area().cursor_position(), (2, 0));
    type_keys(&mut f, "p");
    assert_eq!(buffer(&f), "a\nb\nc\na\nb");
}

#[test]
fn yank_and_paste_above() {
    let mut e = editing("hello\nworld");
    type_keys(&mut e, "yyP");
    assert_eq!(buffer(&e), "hello\nhello\nworld");
    type_keys(&mut e, "Y");
    type_keys(&mut e, "jp");
    assert_eq!(buffer(&e), "hello\nhello\nhello\nworld");
}

#[test]
fn x_and_shift_x_delete_and_are_undone() {
    let mut e = editing("abc");
    type_keys(&mut e, "l");
    type_keys(&mut e, "x");
    assert_eq!(buffer(&e), "ac");
    type_keys(&mut e, "u");
    assert_eq!(buffer(&e), "abc");
    assert_eq!(e.text_area().cursor_position(), (0, 1));
    type_keys(&mut e, "X");
    assert_eq!(buffer(&e), "bc");
    type_keys(&mut e, "u");
    assert_eq!(buffer(&e), "abc");
    assert_eq!(e.text_area().cursor_position(), (0, 0));
}

#[test]
fn line_motions_in_command_mode() {
    let mut e = editing("  hello\nworld\nlast");
    type_keys(&mut e, "$");
    assert_eq!(e.text_area().cursor_position(), (0, 6));
    type_keys(&mut e, "^");
    assert_eq!(e.text_area().cursor_position(), (0, 2));
    type_keys(&mut e, "G");
    assert_eq!(e.text_area().cursor_position(), (2, 0));
    type_keys(&mut e, "gg");
    assert_eq!(e.text_area().cursor_position(), (0, 0));
    type_keys(&mut e, "2G");
    assert_eq!(e.text_area().cursor_position(), (2, 0));
    type_keys(&mut e, "k");
    assert_eq!(e.text_area().cursor_position(), (1, 0));
    type_keys(&mut e, "H");
    assert_eq!(e.text_area().cursor_position(), (0, 0));
}

#[test]
fn deleting_to_line_ends() {
    let mut e = editing("hello");
    type_keys(&mut e, "ll");
    type_keys(&mut e, "d$");
    assert_eq!(buffer(&e), "he");
    let mut f = editing("hello");
    type_keys(&mut f, "ll");
    type_keys(&mut f, "d^");
    assert_eq!(buffer(&f), "llo");
    let mut g = editing("hello");
    type_keys(&mut g, "lllD");
    assert_eq!(buffer(&g), "hel");
}

#[test]
fn open_lines_enter_insert_mode() {
    let mut e = editing("a\nb");
    type_keys(&mut e, "o");
    assert_eq!(e.mode(), VimMode::Insert);
    assert_eq!(buffer(&e), "a\n\nb");
    assert_eq!(e.text_area().cursor_position(), (1, 0));
    press(&mut e, named(NamedKey::Escape));
    type_keys(&mut e, "u");
    assert_eq!(buffer(&e), "a\nb");
    type_keys(&mut e, "O");
    assert_eq!(buffer(&e), "\na\nb");
}

#[test]
fn i_and_shift_i_and_v_switch_modes() {
    let mut e = editing("abc");
    type_keys(&mut e, "l");
    type_keys(&mut e, "I");
    assert_eq!(e.mode(), VimMode::Insert);
    assert_eq!(e.text_area().cursor_position(), (0, 0));
    press(&mut e, named(NamedKey::Escape));
    type_keys(&mut e, "v");
    assert_eq!(e.mode(), VimMode::Visual);
    let out = press(&mut e, ch("x"));
    assert!(matches!(out.action, Action::Nothing));
    assert_eq!(buffer(&e), "abc");
}

#[test]
fn escape_clears_a_pending_count() {
    let mut e = editing("a\nb\nc");
    type_keys(&mut e, "2");
    press(&mut e, named(NamedKey::Escape));
    type_keys(&mut e, "dd");
    assert_eq!(buffer(&e), "b\nc");
}

#[test]
fn command_line_commands() {
    let cases: [(&str, fn(&Action) -> bool); 5] = [
        ("w", |a| matches!(a, Action::Save)),
        ("wq", |a| matches!(a, Action::SaveAndQuit)),
        ("q", |a| matches!(a, Action::Quit)),
        ("qa", |a| matches!(a, Action::Quit)),
        ("zz", |a| matches!(a, Action::Nothing)),
    ];
    for (cmd, expected) in cases {
        let mut e = editing("text");
        type_keys(&mut e, ":");
        assert_eq!(e.mode(), VimMode::CommandLine);
        assert_eq!(e.text_input().unwrap().string(), ":");
        type_keys(&mut e, cmd);
        let out = press(&mut e, named(NamedKey::Enter));
        assert!(expected(&out.action));
        assert_eq!(e.mode(), VimMode::Command);
        assert!(e.text_input().is_none());
    }
}

#[test]
fn command_line_goes_back_to_the_listing() {
    let mut e = editing("text");
    type_keys(&mut e, ":,d");
    let out = press(&mut e, named(NamedKey::Enter));
    assert!(matches!(out.action, Action::ListDirectory));
    assert_eq!(e.mode(), VimMode::Directory);
    assert!(e.text_input().is_none());
}

#[test]
fn backspace_over_the_colon_leaves_the_command_line() {
    let mut e = editing("text");
    type_keys(&mut e, ":");
    press(&mut e, named(NamedKey::Backspace));
    assert_eq!(e.mode(), VimMode::Command);
    assert!(e.text_input().is_none());
}

#[test]
fn a_key_after_escape_on_the_command_line_is_not_handled() {
    let mut e = editing("text");
    type_keys(&mut e, ":");
    press(&mut e, named(NamedKey::Escape));
    assert_eq!(e.mode(), VimMode::CommandLine);
    assert!(e.text_input().is_none());
    assert!(!e.key_is_safe(&ch("w"), false));
}

#[test]
fn input_method_text_only_lands_in_insert_mode() {
    let mut e = editing("ab");
    assert!(!e.commit_ime_text("中"));
    assert_eq!(buffer(&e), "ab");
    type_keys(&mut e, "i");
    assert!(e.commit_ime_text("中文"));
    assert_eq!(buffer(&e), "中文ab");
    e.set_ime_active(true);
    let out = press(&mut e, ch("x"));
    assert!(!out.reset_blink);
    assert_eq!(buffer(&e), "中文ab");
}

#[test]
fn scrolling_follows_the_cursor() {
    let mut e = editing("0\n1\n2\n3\n4\n5\n6\n7");
    e.set_view_rows(4);
    let out = press(&mut e, ch("j"));
    assert!(!out.redraw);
    assert_eq!(e.scroll_row_position(), 0);
    let out = press(&mut e, ch("j"));
    assert!(out.redraw);
    assert_eq!(e.scroll_row_position(), 1);
    type_keys(&mut e, "G");
    assert_eq!(e.scroll_row_position(), 6);
    type_keys(&mut e, "gg");
    assert_eq!(e.scroll_row_position(), 0);
}

#[test]
fn line_numbers_are_right_aligned() {
    let mut e = editing("a\nb\nc\nd\ne\nf\ng\nh\ni\nj\nk");
    e.set_view_rows(2);
    assert_eq!(e.line_numbers_text(), "  1 \n  2 \n  3 \n");
    let f = editing("x");
    assert_eq!(f.line_numbers_text(), " 1 \n");
}

#[test]
fn cursor_text_places_the_caret() {
    let mut e = editing("ab\n\ncd");
    type_keys(&mut e, "jjl");
    let (before, above) = e.cursor_text();
    assert_eq!(before, "c");
    assert_eq!(above, "ab\nMg");
    type_keys(&mut e, ":");
    let (before, above) = e.cursor_text();
    assert_eq!(before, ":");
    assert_eq!(above, "");
}

#[test]
fn clamp_cursor_before_drawing() {
    let mut e = editing("abc");
    type_keys(&mut e, "A");
    assert_eq!(e.text_area().cursor_position(), (0, 3));
    e.clamp_cursor();
    assert_eq!(e.text_area().cursor_position(), (0, 3));
}

#[test]
fn caret_blinks_only_in_insert_mode_after_the_delay() {
    assert!(caret_visible(0, VimMode::Insert));
    assert!(caret_visible(499, VimMode::Insert));
    assert!(caret_visible(500, VimMode::Insert));
    assert!(caret_visible(999, VimMode::Insert));
    assert!(!caret_visible(1000, VimMode::Insert));
    assert!(!caret_visible(1499, VimMode::Insert));
    assert!(caret_visible(1500, VimMode::Insert));
    assert!(caret_visible(1000, VimMode::Command));
    assert!(caret_visible(u128::MAX, VimMode::Directory));
}

#[test]
fn dd_with_a_count_then_u_restores() {
    let mut e = editing("a\nb\nc\nd");
    type_keys(&mut e, "j2dd");
    assert_eq!(buffer(&e), "a\nd");
    type_keys(&mut e, "u");
    assert_eq!(buffer(&e), "a\nb\nc\nd");
}

#[test]
fn undo_of_dd_on_the_last_lines_puts_them_back_below() {
    let mut e = editing("a\nb\nc");
    type_keys(&mut e, "jjdd");
    assert_eq!(buffer(&e), "a\nb");
    type_keys(&mut e, "u");
    assert_eq!(buffer(&e), "a\nb\nc");
    type_keys(&mut e, "ggj2dd");
    assert_eq!(buffer(&e), "a");
    type_keys(&mut e, "u");
    assert_eq!(buffer(&e), "a\nb\nc");
}

#[test]
fn undo_of_dd_over_every_line_restores_them_all() {
    let mut e = editing("a\nb\nc");
    type_keys(&mut e, "j5dd");
    assert_eq!(buffer(&e), "");
    assert_eq!(e.text_area().line_count(), 1);
    type_keys(&mut e, "u");
    assert_eq!(buffer(&e), "a\nb\nc");
    assert_eq!(e.text_area().line_count(), 3);
    type_keys(&mut e, "ggdd");
    assert_eq!(buffer(&e), "b\nc");
    type_keys(&mut e, "u");
    assert_eq!(buffer(&e), "a\nb\nc");
}

#[test]
fn handlers_ignore_keys_of_other_modes() {
    let mut e = editing("abc");
    let out = e.handle_key_in_insert_mode(&ch("X"), false);
    assert!(!out.reset_blink);
    assert_eq!(buffer(&e), "abc");
    let out = e.handle_key_in_directory_mode(&named(NamedKey::Enter));
    assert!(matches!(out.action, Action::Nothing));
    let out = e.handle_key_in_command_line_mode(&named(NamedKey::Enter));
    assert!(matches!(out.action, Action::Nothing));
    assert_eq!(e.mode(), VimMode::Command);
    type_keys(&mut e, "i");
    let out = e.handle_key_in_command_mode(&ch("x"));
    assert!(matches!(out.action, Action::Nothing));
    assert_eq!(buffer(&e), "abc");
    assert_eq!(e.mode(), VimMode::Insert);
}

#[test]
fn shift_o_and_shift_p_are_undone() {
    let mut e = editing("a\nb");
    type_keys(&mut e, "jO");
    assert_eq!(buffer(&e), "a\n\nb");
    press(&mut e, named(NamedKey::Escape));
    type_keys(&mut e, "u");
    assert_eq!(buffer(&e), "a\nb");
    type_keys(&mut e, "yyP");
    assert_eq!(buffer(&e), "a\nb\nb");
    type_keys(&mut e, "u");
    assert_eq!(buffer(&e), "a\nb");
}
