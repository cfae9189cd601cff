use hue::textarea::TextArea;
use hue::undo::{
    clone_strings, Command, DeleteLinesCmd, DeleteNewlineCmd, DeleteText1Cmd, DeleteTextCmd,
    EditCommand, InsertLinesCmd, InsertNewlineCmd, InsertTextCmd, UndoHistory,
};

fn strings(v: &[&str]) -> Vec<String> {
    v.iter().map(|s| s.to_string()).collect()
}

#[test]
fn insert_text_command_does_and_undoes() {
    let mut ta = TextArea::from_string("abc");
    let mut cmd = InsertTextCmd::new(0, 1, "XY".to_string());
    cmd.execute(&mut ta);
    assert_eq!(ta.string(), "aXYbc");
    assert_eq!(ta.cursor_position(), (0, 3));
    cmd.undo(&mut ta);
    assert_eq!(ta.string(), "abc");
    assert_eq!(ta.cursor_position(), (0, 1));
}

#[test]
fn newline_commands_do_and_undo() {
    let mut ta = TextArea::from_string("héllo");
    let mut split = InsertNewlineCmd::new(0, 2);
    split.execute(&mut ta);
    assert_eq!(ta.string(), "hé\nllo");
    split.undo(&mut ta);
    assert_eq!(ta.string(), "héllo");

    let mut tb = TextArea::from_string("ab\ncd");
    let mut join = DeleteNewlineCmd::new(0, 2);
    join.execute(&mut tb);
    assert_eq!(tb.string(), "abcd");
    join.undo(&mut tb);
    assert_eq!(tb.string(), "ab\ncd");
    assert_eq!(tb.cursor_position(), (1, 0));
}

#[test]
fn delete_text_commands_restore_text_and_cursor() {
    let mut ta = TextArea::from_string("abcdef");
    let mut cmd = DeleteTextCmd::new(0, 2, "cd".to_string());
    cmd.execute(&mut ta);
    assert_eq!(ta.string(), "abef");
    cmd.undo(&mut ta);
    assert_eq!(ta.string(), "abcdef");
    assert_eq!(ta.cursor_position(), (0, 2));

    let mut tb = TextArea::from_string("xyz");
    let mut cmd1 = DeleteText1Cmd::new(0, 0, "x".to_string());
    cmd1.execute(&mut tb);
    assert_eq!(tb.string(), "yz");
    cmd1.undo(&mut tb);
    assert_eq!(tb.string(), "xyz");
    assert_eq!(tb.cursor_position(), (0, 0));
}

#[test]
fn line_commands_do_and_undo() {
    let mut ta = TextArea::from_string("a\nb");
    let mut ins = InsertLinesCmd::new(1, 0, strings(&["x", "y"]));
    ins.execute(&mut ta);
    assert_eq!(ta.string(), "a\nx\ny\nb");
    ins.undo(&mut ta);
    assert_eq!(ta.string(), "a\nb");

    let mut tb = TextArea::from_string("a\nx\ny\nb");
    let mut del = DeleteLinesCmd::new(1, 0, strings(&["x", "y"]), false);
    del.execute(&mut tb);
    assert_eq!(tb.string(), "a\nb");
    del.undo(&mut tb);
    assert_eq!(tb.string(), "a\nx\ny\nb");
}

#[test]
fn deleting_every_line_is_undone_without_the_left_empty_line() {
    let mut ta = TextArea::from_string("a\nb");
    let mut del = DeleteLinesCmd::new(0, 0, strings(&["a", "b"]), true);
    del.execute(&mut ta);
    assert_eq!(ta.string(), "");
    assert_eq!(ta.line_count(), 1);
    del.undo(&mut ta);
    assert_eq!(ta.string(), "a\nb");
    assert_eq!(ta.line_count(), 2);
}

#[test]
fn commands_dispatch_through_command() {
    let mut ta = TextArea::from_string("abc");
    let mut cmd = Command::InsertText(InsertTextCmd::new(0, 3, "d".to_string()));
    cmd.execute(&mut ta);
    assert_eq!(ta.string(), "abcd");
    cmd.undo(&mut ta);
    assert_eq!(ta.string(), "abc");
}

#[test]
fn typing_merges_into_one_insertion() {
    let mut first = Command::InsertText(InsertTextCmd::new(0, 0, "a".to_string()));
    assert!(first.try_merge(&Command::InsertText(InsertTextCmd::new(0, 1, "b".to_string()))));
    assert!(!first.try_merge(&Command::InsertText(InsertTextCmd::new(0, 5, "c".to_string()))));
    assert!(!first.try_merge(&Command::InsertText(InsertTextCmd::new(1, 2, "c".to_string()))));
    let mut ta = TextArea::from_string("ab");
    first.undo(&mut ta);
    assert_eq!(ta.string(), "");
}

#[test]
fn backspaces_merge_into_one_deletion() {
    let mut first = Command::DeleteText1(DeleteText1Cmd::new(0, 2, "c".to_string()));
    assert!(first.try_merge(&Command::DeleteText1(DeleteText1Cmd::new(0, 1, "b".to_string()))));
    let mut ta = TextArea::from_string("a");
    first.undo(&mut ta);
    assert_eq!(ta.string(), "abc");
    assert_eq!(ta.cursor_position(), (0, 1));
}

#[test]
fn other_commands_never_merge() {
    let mut nl = Command::InsertNewline(InsertNewlineCmd::new(0, 0));
    assert!(!nl.try_merge(&Command::InsertNewline(InsertNewlineCmd::new(1, 0))));
    let mut del = Command::DeleteText(DeleteTextCmd::new(0, 0, "a".to_string()));
    assert!(!del.try_merge(&Command::DeleteText(DeleteTextCmd::new(0, 1, "b".to_string()))));
    let mut mixed = Command::InsertText(InsertTextCmd::new(0, 0, "a".to_string()));
    assert!(!mixed.try_merge(&Command::DeleteText1(DeleteText1Cmd::new(0, 1, "b".to_string()))));
}

#[test]
fn undo_reverts_a_typed_word() {
    let mut ta = TextArea::from_string("abc");
    let mut history = UndoHistory::new();
    ta.goto_cursor(0, 1);
    for (i, c) in ["X", "Y", "Z"].iter().enumerate() {
        ta.insert_text_at_cursor(c);
        history.record(Command::InsertText(InsertTextCmd::new(0, 1 + i, c.to_string())));
    }
    assert_eq!(ta.string(), "aXYZbc");
    history.start_new_block();
    history.undo(&mut ta);
    assert_eq!(ta.string(), "abc");
    assert_eq!(ta.cursor_position(), (0, 1));
}

#[test]
fn undo_reverts_backspaces() {
    let mut ta = TextArea::from_string("abc");
    let mut history = UndoHistory::new();
    ta.end_of_line_cursor();
    ta.delete_char_before_cursor(true);
    history.record(Command::DeleteText1(DeleteText1Cmd::new(0, 2, "c".to_string())));
    ta.delete_char_before_cursor(true);
    history.record(Command::DeleteText1(DeleteText1Cmd::new(0, 1, "b".to_string())));
    assert_eq!(ta.string(), "a");
    history.undo(&mut ta);
    assert_eq!(ta.string(), "abc");
    assert_eq!(ta.cursor_position(), (0, 1));
}

#[test]
fn undo_takes_blocks_latest_first() {
    let mut ta = TextArea::from_string("");
    let mut history = UndoHistory::new();
    ta.insert_text_at_cursor("one");
    history.record(Command::InsertText(InsertTextCmd::new(0, 0, "one".to_string())));
    history.start_new_block();
    ta.insert_newline_at_cursor();
    history.record(Command::InsertNewline(InsertNewlineCmd::new(0, 3)));
    ta.insert_text_at_cursor("two");
    history.record(Command::InsertText(InsertTextCmd::new(1, 0, "two".to_string())));
    history.start_new_block();
    assert_eq!(ta.string(), "one\ntwo");
    history.undo(&mut ta);
    assert_eq!(ta.string(), "one");
    history.undo(&mut ta);
    assert_eq!(ta.string(), "");
    history.undo(&mut ta);
    assert_eq!(ta.string(), "");
}

#[test]
fn undo_with_nothing_recorded_leaves_the_buffer() {
    let mut ta = TextArea::from_string("keep\nthis");
    ta.goto_cursor(1, 2);
    let mut history = UndoHistory::new();
    history.start_new_block();
    history.undo(&mut ta);
    assert_eq!(ta.string(), "keep\nthis");
    assert_eq!(ta.cursor_position(), (1, 2));
}

#[test]
fn clone_strings_copies_every_string() {
    let v = strings(&["a", "", "中"]);
    assert_eq!(clone_strings(&v), v);
}
