//! The modal editor: what each key does in each mode to the buffer, the
//! prompt line, the copied lines and the undo history, and what it asks of the
//! program around it (files to open or write, the caret to show, a redraw).

use vstd::prelude::*;
use crate::directory::{
    entries_view, listing_line, listing_line_string, named, sort_by_name, sorted_by_name, DirEntry,
    DirEntryView,
};
use crate::format::{decimal, decimal_string, pad_left, parse_usize, parsed_usize, push_padded_left};
use crate::text::{delete_chars, insert_chars, lines_of, prefix, string_push};
use crate::textarea::{
    append_line_result, at_column, before_cursor, clamp1_result, clamp_result, delete_after_result, delete_before_result, delete_lines_result,
    delete_to_end_result, delete_to_start_result, empty_view, end_of_line_result,
    end_offset_result, first_non_blank_result, goto_result, insert_lines_result, insert_text_result,
    join_lines, line_slice, shown_lines, string_view, lines_from, min, move_down_result, move_left_result,
    move_right1_result, move_right_result, move_up_result, new_line_above_result,
    new_line_below_result, newline_result, prompt_view, saturating_sub, view_wf, TextArea, TextAreaView,
    lemma_delete_undoes_insert, lemma_insert_consecutive, lemma_insert_undoes_delete,
};
use crate::undo::{
    block_well_formed, closed_block, recorded, revert_block, reverted, stack_well_formed, undo_result, Command, CommandView, DeleteLinesCmd, DeleteNewlineCmd,
    DeleteText1Cmd, DeleteTextCmd, InsertLinesCmd, InsertNewlineCmd, InsertTextCmd, UndoHistory,
    UndoHistoryView,
};

verus! {

/// The start of the header above a directory listing, up to the directory's name.
pub const HEADER_START: &'static str = "\" =========================================\n\" 目录: ";

/// The end of the header above a directory listing, after the directory's name.
pub const HEADER_END: &'static str = "\n说明: d 表示目录 - 表示文件\n\" 帮助: hjkl:光标移动 n:新建文件\n\" =========================================\n\n";

/// How long the caret stays shown after a key, in milliseconds.
pub const CARET_BLINK_DELAY_MS: u128 = 500;

/// How long the caret stays shown, then hidden, while it blinks, in milliseconds.
pub const CARET_BLINK_PERIOD_MS: u128 = 500;

/// The editor's modes.
#[derive(PartialEq, Eq, Structural, Clone, Copy, Debug)]
pub enum VimMode {
    Directory,
    Command,
    CommandLine,
    Insert,
    Visual,
}

impl VimMode {
    /// The mode's name, as the status line shows it.
    pub fn name(&self) -> (s: &'static str)
        ensures
            s@ == match *self {
                VimMode::Directory => "Directory"@,
                VimMode::Command => "Command"@,
                VimMode::CommandLine => "CommandLine"@,
                VimMode::Insert => "Insert"@,
                VimMode::Visual => "Visual"@,
            },
    {
        match self {
            VimMode::Directory => "Directory",
            VimMode::Command => "Command",
            VimMode::CommandLine => "CommandLine",
            VimMode::Insert => "Insert",
            VimMode::Visual => "Visual",
        }
    }
}

/// The keys without a character that the editor reacts to.
#[derive(PartialEq, Eq, Structural, Clone, Copy, Debug)]
pub enum NamedKey {
    Enter,
    Escape,
    Backspace,
    Delete,
    Space,
    Other,
}

/// A key press: a named key, the text a key types, or something else.
pub enum Key {
    Named(NamedKey),
    Character(String),
    Other,
}

/// A key press as plain values.
pub enum KeyView {
    Named(NamedKey),
    Character(Seq<char>),
    Other,
}

impl View for Key {
    type V = KeyView;

    open spec fn view(&self) -> KeyView {
        match self {
            Key::Named(k) => KeyView::Named(*k),
            Key::Character(s) => KeyView::Character(s@),
            Key::Other => KeyView::Other,
        }
    }
}

/// What the program around the editor is asked to do after a key.
pub enum Action {
    Nothing,
    /// Create a new, empty file of this name in the current directory.
    CreateFile(String),
    /// Go to the parent of the current directory.
    ParentDirectory,
    /// Go into this subdirectory of the current directory.
    EnterDirectory(String),
    /// Open this file of the current directory.
    OpenFile(String),
    /// List the current directory again.
    ListDirectory,
    /// Write the buffer to the open file.
    Save,
    /// Write the buffer to the open file, and quit when that succeeds.
    SaveAndQuit,
    /// Quit.
    Quit,
}

/// An action as plain values.
pub enum ActionView {
    Nothing,
    CreateFile(Seq<char>),
    ParentDirectory,
    EnterDirectory(Seq<char>),
    OpenFile(Seq<char>),
    ListDirectory,
    Save,
    SaveAndQuit,
    Quit,
}

impl View for Action {
    type V = ActionView;

    open spec fn view(&self) -> ActionView {
        match self {
            Action::Nothing => ActionView::Nothing,
            Action::CreateFile(s) => ActionView::CreateFile(s@),
            Action::ParentDirectory => ActionView::ParentDirectory,
            Action::EnterDirectory(s) => ActionView::EnterDirectory(s@),
            Action::OpenFile(s) => ActionView::OpenFile(s@),
            Action::ListDirectory => ActionView::ListDirectory,
            Action::Save => ActionView::Save,
            Action::SaveAndQuit => ActionView::SaveAndQuit,
            Action::Quit => ActionView::Quit,
        }
    }
}

/// What handling a key asks for: restarting the caret's blink, a redraw (the
/// view scrolled), and an action.
pub struct Outcome {
    pub reset_blink: bool,
    pub redraw: bool,
    pub action: Action,
}

/// An outcome as plain values.
pub struct OutcomeView {
    pub reset_blink: bool,
    pub redraw: bool,
    pub action: ActionView,
}

impl View for Outcome {
    type V = OutcomeView;

    open spec fn view(&self) -> OutcomeView {
        OutcomeView { reset_blink: self.reset_blink, redraw: self.redraw, action: self.action@ }
    }
}

/// The mode and the pending count and operator typed in command mode.
pub struct VimState {
    mode: VimMode,
    num_str: String,
    cmd_str: String,
}

/// The editor as plain values.
pub struct EditorView {
    pub text: TextAreaView,
    pub history: UndoHistoryView,
    pub mode: VimMode,
    pub num_str: Seq<char>,
    pub cmd_str: Seq<char>,
    pub copy_lines: Seq<Seq<char>>,
    pub has_copy_newline: bool,
    pub scroll_row: int,
    pub view_rows: int,
    pub input: Option<TextAreaView>,
    pub prompt: Seq<char>,
    pub ime_active: bool,
    pub entries: Seq<DirEntryView>,
    pub file_select_offset: int,
}

/// The editor: the buffer, its undo history, the prompt line being typed (a
/// file name or a `:` command), the copied lines, the scroll position and the
/// listed directory.
pub struct Editor {
    text_area: TextArea,
    undo_history: UndoHistory,
    vim_state: VimState,
    has_copy_newline: bool,
    copy_lines: Vec<String>,
    scroll_row: usize,
    view_rows: usize,
    text_input: Option<TextArea>,
    text_input_prompt: String,
    is_ime_active: bool,
    fileinfos: Vec<DirEntry>,
    file_select_offset: usize,
}

/// The characters of each string.
pub open spec fn strings_view(v: Seq<String>) -> Seq<Seq<char>> {
    v.map_values(|s: String| s@)
}

impl View for Editor {
    type V = EditorView;

    closed spec fn view(&self) -> EditorView {
        EditorView {
            text: self.text_area@,
            history: self.undo_history@,
            mode: self.vim_state.mode,
            num_str: self.vim_state.num_str@,
            cmd_str: self.vim_state.cmd_str@,
            copy_lines: strings_view(self.copy_lines@),
            has_copy_newline: self.has_copy_newline,
            scroll_row: self.scroll_row as int,
            view_rows: self.view_rows as int,
            input: match self.text_input {
                Some(t) => Some(t@),
                None => None,
            },
            prompt: self.text_input_prompt@,
            ime_active: self.is_ime_active,
            entries: self.fileinfos@.map_values(|e: DirEntry| e@),
            file_select_offset: self.file_select_offset as int,
        }
    }
}

/// A buffer with a line and the cursor on one of its lines.
pub open spec fn buffer_ok(t: TextAreaView) -> bool {
    &&& view_wf(t)
    &&& t.row < t.lines.len()
}

/// Every command the history holds is well formed.
pub open spec fn history_ok(h: UndoHistoryView) -> bool {
    &&& stack_well_formed(h.undo_stack)
    &&& stack_well_formed(h.redo_stack)
    &&& block_well_formed(h.current_block)
}

/// What always holds of the editor.
pub open spec fn editor_ok(e: EditorView) -> bool {
    &&& buffer_ok(e.text)
    &&& history_ok(e.history)
    &&& (e.input matches Some(t) ==> buffer_ok(t))
    &&& e.prompt.len() > 0
    &&& (e.mode != VimMode::Insert ==> e.history.current_block.len() == 0)
    &&& 0 <= e.file_select_offset <= usize::MAX - 2
    &&& 0 <= e.scroll_row <= usize::MAX
    &&& 0 <= e.view_rows <= usize::MAX
}

/// The only character of `s`, when it has exactly one.
pub open spec fn single(s: Seq<char>) -> Option<char> {
    if s.len() == 1 { Some(s[0]) } else { None }
}

/// No effect asked for.
pub open spec fn quiet() -> OutcomeView {
    OutcomeView { reset_blink: false, redraw: false, action: ActionView::Nothing }
}

/// Only the caret's blink restarted.
pub open spec fn blink() -> OutcomeView {
    OutcomeView { reset_blink: true, redraw: false, action: ActionView::Nothing }
}

/// Only an action asked for.
pub open spec fn act(a: ActionView) -> OutcomeView {
    OutcomeView { reset_blink: false, redraw: false, action: a }
}

/// The editor with a new buffer state.
pub open spec fn with_text(e: EditorView, t: TextAreaView) -> EditorView {
    EditorView { text: t, ..e }
}

/// The first row shown after scrolling so that the cursor row is on screen.
pub open spec fn scroll_target(row: int, scroll: int, view_rows: int) -> int {
    if row < scroll {
        row
    } else if view_rows > 0 && row - scroll + 2 >= view_rows {
        row + 2 - view_rows + 1
    } else {
        scroll
    }
}

/// Whether computing the scroll target for cursor row `row` stays within `usize`.
pub open spec fn scroll_safe_row(row: int, scroll: int, view_rows: int) -> bool {
    row < scroll || view_rows == 0 || (row - scroll + 2 <= usize::MAX && (row - scroll + 2
        >= view_rows ==> row + 2 <= usize::MAX && row + 3 - view_rows <= usize::MAX))
}

/// Whether computing the scroll target stays within `usize`.
pub open spec fn scroll_safe(e: EditorView) -> bool {
    scroll_safe_row(e.text.row, e.scroll_row, e.view_rows)
}

/// The editor scrolled so that the cursor row is on screen.
pub open spec fn scrolled(e: EditorView) -> EditorView {
    EditorView { scroll_row: scroll_target(e.text.row, e.scroll_row, e.view_rows), ..e }
}

/// Whether scrolling to the cursor moves the view.
pub open spec fn scroll_moves(e: EditorView) -> bool {
    scroll_target(e.text.row, e.scroll_row, e.view_rows) != e.scroll_row
}

/// The number typed before a command (`default` when it does not parse), and
/// what remains typed.
pub open spec fn typed_count(num_str: Seq<char>, default: int) -> int {
    match parsed_usize(num_str) {
        Some(n) => n as int,
        None => default,
    }
}

/// The count for `dd`, `yy` and `Y`: one when none was typed; and the count
/// typed so far after the command.
pub open spec fn line_count_arg(e: EditorView) -> (int, Seq<char>) {
    if e.num_str.len() == 0 {
        (1, e.num_str)
    } else {
        (typed_count(e.num_str, 1), Seq::empty())
    }
}

/// The editor after copying `count` lines from the cursor line.
pub open spec fn copied(e: EditorView, count: int) -> EditorView {
    EditorView {
        copy_lines: lines_from(e.text, e.text.row, count),
        has_copy_newline: true,
        ..e
    }
}

/// `cmd_str` once the key's text is added to a pending operator: `dd` deletes
/// (and copies) lines, `d$` and `d^` delete to the end or start of the line,
/// `gg` goes to the first line, `yy` copies lines; anything else stays pending.
pub open spec fn pending_command(e: EditorView, cmd: Seq<char>) -> (EditorView, OutcomeView) {
    let t = e.text;
    if cmd == seq!['d', 'd'] {
        let (n, num) = line_count_arg(e);
        let lines = lines_from(t, t.row, n);
        let t2 = delete_lines_result(t, n);
        let cmd = deleted_lines_record(t, n);
        (
            EditorView {
                cmd_str: Seq::empty(),
                num_str: num,
                copy_lines: lines,
                has_copy_newline: true,
                text: t2,
                history: closed_block(recorded(e.history, cmd)),
                ..e
            },
            quiet(),
        )
    } else if cmd == seq!['d', '$'] {
        (EditorView { cmd_str: Seq::empty(), text: delete_to_end_result(t), ..e }, quiet())
    } else if cmd == seq!['d', '^'] {
        (EditorView { cmd_str: Seq::empty(), text: delete_to_start_result(t), ..e }, quiet())
    } else if cmd == seq!['g', 'g'] {
        let e2 = EditorView { cmd_str: Seq::empty(), text: goto_result(t, 0, 0), ..e };
        (scrolled(e2), OutcomeView { redraw: scroll_moves(e2), ..quiet() })
    } else if cmd == seq!['y', 'y'] {
        let (n, num) = line_count_arg(e);
        (copied(EditorView { cmd_str: Seq::empty(), num_str: num, ..e }, n), quiet())
    } else {
        (EditorView { cmd_str: cmd, ..e }, quiet())
    }
}

/// What `dd` deleting `n` lines at the cursor records for undo: the lines from
/// the cursor row on, or every line (from the first) when `n` reaches their
/// number, which leaves one empty line in their place.
pub open spec fn deleted_lines_record(t: TextAreaView, n: int) -> CommandView {
    if n >= t.lines.len() {
        CommandView::DeleteLines { row: 0, col: 0, lines: t.lines, emptied: true }
    } else {
        CommandView::DeleteLines { row: t.row, col: 0, lines: lines_from(t, t.row, n), emptied: false }
    }
}

/// Undoing what `dd` recorded gives back the lines it deleted.
proof fn lemma_deleted_lines_reverted(t: TextAreaView, n: int)
    requires
        buffer_ok(t),
        n >= 0,
    ensures
        reverted(deleted_lines_record(t, n), delete_lines_result(t, n)).lines == t.lines,
{
    let l = t.lines;
    let r = t.row;
    let t2 = delete_lines_result(t, n);
    if n >= l.len() {
        assert(t2.lines =~= seq![Seq::<char>::empty()]);
        let t2i = insert_lines_result(t2, 0, l);
        assert(t2i.lines =~= l + seq![Seq::<char>::empty()]);
        let g = goto_result(t2i, l.len() as int, 0);
        assert(g.row == l.len());
        assert(delete_lines_result(g, 1).lines =~= l);
    } else {
        let k = min(n, l.len() - r);
        assert(lines_from(t, r, n) =~= l.subrange(r, r + k));
        assert(t2.lines =~= l.take(r) + l.skip(r + k));
        assert(insert_lines_result(t2, r, lines_from(t, r, n)).lines =~= l);
    }
}

/// `p` (`after`) or `P`: pastes the copied lines below or above the cursor line,
/// recording it for undo and emptying the copy; or pastes copied text after or
/// at the cursor.
pub open spec fn paste(e: EditorView, after: bool) -> (EditorView, OutcomeView) {
    let t = e.text;
    if e.copy_lines.len() == 0 {
        (e, quiet())
    } else if e.has_copy_newline {
        let at = if after { t.row + 1 } else { t.row };
        (
            EditorView {
                text: insert_lines_result(t, at, e.copy_lines),
                copy_lines: Seq::empty(),
                history: closed_block(
                    recorded(
                        e.history,
                        CommandView::InsertLines { row: at, col: 0, lines: e.copy_lines },
                    ),
                ),
                ..e
            },
            quiet(),
        )
    } else {
        let col = if after { t.col + 1 } else { t.col };
        (with_text(e, insert_text_result(t, t.row, col, e.copy_lines[0])), quiet())
    }
}

/// The effect of a one-character key in command mode with no operator pending.
pub open spec fn command_char(e: EditorView, c: Seq<char>) -> (EditorView, OutcomeView) {
    let t = e.text;
    let h = e.history;
    match single(c) {
        Some(ch) => if '0' <= ch <= '9' {
            (EditorView { num_str: e.num_str + c, ..e }, quiet())
        } else if ch == '$' {
            (with_text(e, end_offset_result(t, 1)), quiet())
        } else if ch == '^' {
            (with_text(e, first_non_blank_result(t)), quiet())
        } else if ch == 'a' {
            (EditorView { text: move_right_result(t), mode: VimMode::Insert, ..e }, quiet())
        } else if ch == 'A' {
            (EditorView { text: end_of_line_result(t), mode: VimMode::Insert, ..e }, quiet())
        } else if ch == 'd' || ch == 'g' || ch == 'y' {
            (EditorView { cmd_str: e.cmd_str + c, ..e }, quiet())
        } else if ch == 'D' {
            (with_text(e, delete_to_end_result(t)), quiet())
        } else if ch == 'G' {
            let last = saturating_sub(t.lines.len() as int, 1);
            let (line_num, num) = if e.num_str.len() == 0 {
                (last, e.num_str)
            } else {
                (min(typed_count(e.num_str, 0), last), Seq::empty())
            };
            let e2 = EditorView { text: goto_result(t, line_num, 0), num_str: num, ..e };
            (scrolled(e2), OutcomeView { redraw: scroll_moves(e2), ..quiet() })
        } else if ch == 'h' {
            (with_text(e, move_left_result(t)), blink())
        } else if ch == 'H' {
            (with_text(e, goto_result(t, e.scroll_row, t.col)), quiet())
        } else if ch == 'i' {
            (EditorView { mode: VimMode::Insert, ..e }, quiet())
        } else if ch == 'I' {
            (EditorView { text: at_column(t, 0), mode: VimMode::Insert, ..e }, quiet())
        } else if ch == 'j' {
            let e2 = with_text(e, move_down_result(t));
            (scrolled(e2), OutcomeView { redraw: scroll_moves(e2), ..blink() })
        } else if ch == 'k' {
            let e2 = with_text(e, move_up_result(t));
            (scrolled(e2), OutcomeView { redraw: scroll_moves(e2), ..blink() })
        } else if ch == 'l' {
            (with_text(e, move_right1_result(t)), blink())
        } else if ch == 'L' {
            (with_text(e, goto_result(t, e.scroll_row + e.view_rows - 1, t.col)), quiet())
        } else if ch == 'M' {
            let row = min(e.scroll_row + e.view_rows / 2, t.lines.len() as int / 2);
            (with_text(e, goto_result(t, row, t.col)), quiet())
        } else if ch == 'o' {
            let end = t.lines[t.row].len() as int;
            (
                EditorView {
                    text: new_line_below_result(t),
                    mode: VimMode::Insert,
                    history: recorded(h, CommandView::InsertNewline { row: t.row, col: end }),
                    ..e
                },
                quiet(),
            )
        } else if ch == 'O' {
            (
                EditorView {
                    text: new_line_above_result(t),
                    mode: VimMode::Insert,
                    history: recorded(h, CommandView::InsertNewline { row: t.row, col: 0 }),
                    ..e
                },
                quiet(),
            )
        } else if ch == 'p' {
            paste(e, true)
        } else if ch == 'P' {
            paste(e, false)
        } else if ch == 'u' {
            let (h2, t2) = undo_result(h, t);
            (EditorView { text: clamp1_result(t2), history: h2, ..e }, quiet())
        } else if ch == 'v' {
            (EditorView { mode: VimMode::Visual, ..e }, quiet())
        } else if ch == 'x' {
            let t2 = delete_after_result(t, false);
            match line_slice(t, t.row, t.col, 1) {
                Some(x) => (
                    EditorView {
                        text: t2,
                        history: closed_block(
                            recorded(h, CommandView::DeleteText { row: t.row, col: t.col, text: x }),
                        ),
                        ..e
                    },
                    quiet(),
                ),
                None => (with_text(e, t2), quiet()),
            }
        } else if ch == 'X' {
            let t2 = delete_before_result(t, false);
            match if t.col == 0 { None } else { line_slice(t, t.row, t.col - 1, 1) } {
                Some(x) => (
                    EditorView {
                        text: t2,
                        history: closed_block(
                            recorded(
                                h,
                                CommandView::DeleteText { row: t.row, col: t.col - 1, text: x },
                            ),
                        ),
                        ..e
                    },
                    quiet(),
                ),
                None => (with_text(e, t2), quiet()),
            }
        } else if ch == 'Y' {
            let (n, num) = line_count_arg(e);
            (copied(EditorView { num_str: num, ..e }, n), quiet())
        } else if ch == ':' {
            (
                EditorView {
                    mode: VimMode::CommandLine,
                    input: Some(insert_text_result(empty_view(), 0, 0, seq![':'])),
                    ..e
                },
                quiet(),
            )
        } else {
            (e, quiet())
        },
        None => (e, quiet()),
    }
}

/// What a key does in command mode.
pub open spec fn command_step(e: EditorView, key: KeyView) -> (EditorView, OutcomeView) {
    if e.mode != VimMode::Command {
        (e, quiet())
    } else {
        match key {
            KeyView::Named(NamedKey::Escape) => (
                EditorView { num_str: Seq::empty(), cmd_str: Seq::empty(), ..e },
                quiet(),
            ),
            KeyView::Character(c) => if e.ime_active {
                (e, quiet())
            } else if e.cmd_str.len() > 0 {
                pending_command(e, e.cmd_str + c)
            } else {
                command_char(e, c)
            },
            _ => (e, quiet()),
        }
    }
}

/// The keys that command mode handles without overflowing or panicking.
pub open spec fn command_safe(e: EditorView, key: KeyView) -> bool {
    e.mode == VimMode::Command ==> {
        let t = e.text;
        match key {
            KeyView::Character(c) => if e.ime_active {
                true
            } else if e.cmd_str.len() > 0 {
                e.cmd_str + c == seq!['g', 'g'] ==> scroll_safe(
                    EditorView { text: goto_result(t, 0, 0), ..e },
                )
            } else {
                match single(c) {
                    Some(ch) => if ch == 'G' {
                        let last = saturating_sub(t.lines.len() as int, 1);
                        let line_num = if e.num_str.len() == 0 {
                            last
                        } else {
                            min(typed_count(e.num_str, 0), last)
                        };
                        scroll_safe(with_text(e, goto_result(t, line_num, 0)))
                    } else if ch == 'j' {
                        scroll_safe(with_text(e, move_down_result(t)))
                    } else if ch == 'k' {
                        scroll_safe(with_text(e, move_up_result(t)))
                    } else if ch == 'L' {
                        1 <= e.scroll_row + e.view_rows <= usize::MAX
                    } else if ch == 'M' {
                        e.scroll_row + e.view_rows / 2 <= usize::MAX
                    } else if ch == 'p' {
                        e.copy_lines.len() > 0 && !e.has_copy_newline ==> t.col + 1
                            + e.copy_lines[0].len() <= usize::MAX
                    } else if ch == 'P' {
                        e.copy_lines.len() > 0 && !e.has_copy_newline ==> t.col
                            + e.copy_lines[0].len() <= usize::MAX
                    } else if ch == 'X' {
                        !(t.col == 0 && !(t.row < t.frozen.0 || (t.row == t.frozen.0 && t.col
                            <= t.frozen.1)))
                    } else {
                        true
                    },
                    None => true,
                }
            },
            _ => true,
        }
    }
}

/// Leaving insert mode: back to command mode, the cursor onto a character, and
/// the edits typed since entering it closed as one block for undo.
pub open spec fn esc_insert(e: EditorView) -> EditorView {
    EditorView {
        mode: VimMode::Command,
        text: clamp1_result(e.text),
        history: closed_block(e.history),
        ..e
    }
}

/// What a key does in insert mode; `ctrl` tells whether Control is held.
pub open spec fn insert_step(e: EditorView, key: KeyView, ctrl: bool) -> (EditorView, OutcomeView) {
    if e.mode != VimMode::Insert {
        (e, quiet())
    } else {
        let t = e.text;
        let h = e.history;
        match key {
            KeyView::Named(NamedKey::Escape) => (esc_insert(e), quiet()),
            KeyView::Named(NamedKey::Delete) => {
                let len = t.lines[t.row].len() as int;
                let t2 = delete_after_result(t, true);
                let h2 = match if t.col >= len { None } else { line_slice(t, t.row, t.col, 1) } {
                    Some(x) => recorded(h, CommandView::DeleteText1 { row: t.row, col: t.col, text: x }),
                    None => if t.col >= len && t.row < t.lines.len() - 1 {
                        recorded(h, CommandView::DeleteNewline { row: t.row, col: t.col })
                    } else {
                        h
                    },
                };
                (EditorView { text: t2, history: h2, ..e }, blink())
            },
            KeyView::Named(NamedKey::Backspace) => {
                let prev_len = if t.row == 0 { 0 } else { t.lines[t.row - 1].len() as int };
                let t2 = delete_before_result(t, true);
                let h2 = match if t.col == 0 { None } else { line_slice(t, t.row, t.col - 1, 1) } {
                    Some(x) => recorded(
                        h,
                        CommandView::DeleteText1 { row: t.row, col: t.col - 1, text: x },
                    ),
                    None => if t.col == 0 && t.row > 0 {
                        recorded(h, CommandView::DeleteNewline { row: t.row - 1, col: prev_len })
                    } else {
                        h
                    },
                };
                (EditorView { text: t2, history: h2, ..e }, blink())
            },
            KeyView::Named(NamedKey::Space) => (
                with_text(e, insert_text_result(t, t.row, t.col, seq![' '])),
                blink(),
            ),
            KeyView::Named(NamedKey::Enter) => {
                let e2 = with_text(e, newline_result(t, t.row, t.col));
                (
                    EditorView {
                        history: recorded(h, CommandView::InsertNewline { row: t.row, col: t.col }),
                        ..scrolled(e2)
                    },
                    OutcomeView { redraw: scroll_moves(e2), ..blink() },
                )
            },
            KeyView::Character(c) => if e.ime_active {
                (e, quiet())
            } else if ctrl && c == seq!['['] {
                (esc_insert(e), quiet())
            } else {
                (
                    EditorView {
                        text: insert_text_result(t, t.row, t.col, c),
                        history: recorded(h, CommandView::InsertText { row: t.row, col: t.col, text: c }),
                        ..e
                    },
                    blink(),
                )
            },
            _ => (e, quiet()),
        }
    }
}

/// The keys that insert mode handles without overflowing.
pub open spec fn insert_safe(e: EditorView, key: KeyView, ctrl: bool) -> bool {
    e.mode == VimMode::Insert ==> {
        let t = e.text;
        match key {
            KeyView::Named(NamedKey::Space) => t.col + 1 <= usize::MAX,
            KeyView::Named(NamedKey::Enter) => scroll_safe(with_text(e, newline_result(t, t.row, t.col))),
            KeyView::Character(c) => !e.ime_active && !(ctrl && c == seq!['[']) ==> t.col + c.len()
                <= usize::MAX,
            _ => true,
        }
    }
}

/// The `:` command typed on the prompt line: its text after the colon.
pub open spec fn typed_command(input: TextAreaView) -> Seq<char> {
    join_lines(input.lines).skip(1)
}

/// What a `:` command asks for: `w` writes the file, `wq` writes it and quits
/// when that works, `q` and `qa` quit.
pub open spec fn command_line_action(cmd: Seq<char>) -> ActionView {
    if cmd == seq!['w'] {
        ActionView::Save
    } else if cmd == seq!['w', 'q'] {
        ActionView::SaveAndQuit
    } else if cmd == seq!['q'] || cmd == seq!['q', 'a'] {
        ActionView::Quit
    } else {
        ActionView::Nothing
    }
}

/// What a key does while a `:` command is typed on the prompt line.
pub open spec fn command_line_step(e: EditorView, key: KeyView) -> (EditorView, OutcomeView) {
    if e.mode != VimMode::CommandLine {
        (e, quiet())
    } else {
        let ti = e.input->Some_0;
        match key {
            KeyView::Named(NamedKey::Enter) => {
                let cmd = typed_command(ti);
                if cmd == seq![',', 'd'] {
                    (
                        EditorView { mode: VimMode::Directory, input: None, ..e },
                        act(ActionView::ListDirectory),
                    )
                } else {
                    (
                        EditorView { mode: VimMode::Command, input: None, ..e },
                        act(command_line_action(cmd)),
                    )
                }
            },
            KeyView::Named(NamedKey::Escape) => (EditorView { input: None, ..e }, blink()),
            KeyView::Named(NamedKey::Backspace) => {
                let t2 = delete_before_result(ti, true);
                if t2.lines.len() == 1 && t2.lines[0].len() == 0 {
                    (EditorView { input: None, mode: VimMode::Command, ..e }, blink())
                } else {
                    (EditorView { input: Some(t2), ..e }, blink())
                }
            },
            KeyView::Character(c) => (
                EditorView { input: Some(insert_text_result(ti, ti.row, ti.col, c)), ..e },
                quiet(),
            ),
            _ => (e, quiet()),
        }
    }
}

/// The keys that the `:` prompt handles without panicking: it must be open,
/// hold text when Enter is pressed, and have room for typed text.
pub open spec fn command_line_safe(e: EditorView, key: KeyView) -> bool {
    e.mode == VimMode::CommandLine ==> {
        &&& e.input is Some
        &&& match key {
            KeyView::Named(NamedKey::Enter) => join_lines(e.input->Some_0.lines).len() >= 1,
            KeyView::Character(c) => e.input->Some_0.col + c.len() <= usize::MAX,
            _ => true,
        }
    }
}

/// The name typed on the new-file prompt: what follows the prompt text.
pub open spec fn typed_file_name(e: EditorView, input: TextAreaView) -> Seq<char> {
    join_lines(input.lines).skip(e.prompt.len() as int)
}

/// What a key does in directory mode: on the listing, Enter acts on the entry
/// under the cursor (the first two rows stand for the directory itself and its
/// parent), `hjkl` and `G` move, `n` opens the new-file prompt; on the prompt,
/// Enter asks for the file to be created, Escape closes it.
pub open spec fn directory_step(e: EditorView, key: KeyView) -> (EditorView, OutcomeView) {
    if e.mode != VimMode::Directory {
        (e, quiet())
    } else {
        let t = e.text;
        match key {
            KeyView::Named(k) => match e.input {
                Some(ti) => if k == NamedKey::Enter {
                    (e, act(ActionView::CreateFile(typed_file_name(e, ti))))
                } else if k == NamedKey::Escape {
                    (EditorView { input: None, ..e }, blink())
                } else if k == NamedKey::Backspace {
                    (EditorView { input: Some(delete_before_result(ti, true)), ..e }, blink())
                } else {
                    (e, quiet())
                },
                None => if k == NamedKey::Enter {
                    let row = t.row;
                    let off = e.file_select_offset;
                    if row == off {
                        (e, quiet())
                    } else if row == off + 1 {
                        (e, act(ActionView::ParentDirectory))
                    } else if 0 <= row - off - 2 < e.entries.len() {
                        let entry = e.entries[row - off - 2];
                        if entry.is_dir {
                            (e, act(ActionView::EnterDirectory(entry.name)))
                        } else {
                            (e, act(ActionView::OpenFile(entry.name)))
                        }
                    } else {
                        (e, quiet())
                    }
                } else {
                    (e, quiet())
                },
            },
            KeyView::Character(c) => if e.ime_active {
                (e, quiet())
            } else {
                match e.input {
                    Some(ti) => (
                        EditorView { input: Some(insert_text_result(ti, ti.row, ti.col, c)), ..e },
                        quiet(),
                    ),
                    None => match single(c) {
                        Some(ch) => if ch == 'G' {
                            (with_text(e, goto_result(t, t.lines.len() - 1, 0)), quiet())
                        } else if ch == 'h' {
                            (with_text(e, move_left_result(t)), blink())
                        } else if ch == 'j' {
                            (with_text(e, move_down_result(t)), blink())
                        } else if ch == 'k' {
                            (with_text(e, move_up_result(t)), blink())
                        } else if ch == 'l' {
                            (with_text(e, move_right_result(t)), blink())
                        } else if ch == 'n' {
                            (EditorView { input: Some(prompt_view(e.prompt)), ..e }, blink())
                        } else {
                            (e, quiet())
                        },
                        None => (e, quiet()),
                    },
                }
            },
            KeyView::Other => (e, quiet()),
        }
    }
}

/// The keys that directory mode handles without panicking: the prompt holds at
/// least the prompt text on Enter and has room for typed text, and Enter on the
/// listing is not above the listed rows.
pub open spec fn directory_safe(e: EditorView, key: KeyView) -> bool {
    e.mode == VimMode::Directory ==> {
        match key {
            KeyView::Named(NamedKey::Enter) => match e.input {
                Some(ti) => join_lines(ti.lines).len() >= e.prompt.len(),
                None => e.text.row >= e.file_select_offset,
            },
            KeyView::Character(c) => match e.input {
                Some(ti) => !e.ime_active ==> ti.col + c.len() <= usize::MAX,
                None => true,
            },
            _ => true,
        }
    }
}

/// What a key does in the editor, by its mode.
pub open spec fn key_step(e: EditorView, key: KeyView, ctrl: bool) -> (EditorView, OutcomeView) {
    match e.mode {
        VimMode::Directory => directory_step(e, key),
        VimMode::Command => command_step(e, key),
        VimMode::CommandLine => command_line_step(e, key),
        VimMode::Insert => insert_step(e, key, ctrl),
        VimMode::Visual => (e, quiet()),
    }
}

/// The keys the editor handles in its current mode without panicking or
/// overflowing.
pub open spec fn key_safe(e: EditorView, key: KeyView, ctrl: bool) -> bool {
    match e.mode {
        VimMode::Directory => directory_safe(e, key),
        VimMode::Command => command_safe(e, key),
        VimMode::CommandLine => command_line_safe(e, key),
        VimMode::Insert => insert_safe(e, key, ctrl),
        VimMode::Visual => true,
    }
}

/// The header above a directory listing, naming the directory `dir`.
pub open spec fn listing_header(dir: Seq<char>) -> Seq<char> {
    HEADER_START@ + dir + HEADER_END@
}

/// The buffer listing directory `dir`: the header (frozen), a row `d .` for the
/// directory itself, `d ..` for its parent, then a row per entry; the cursor on
/// the `d .` row.
pub open spec fn listing_view(dir: Seq<char>, entries: Seq<DirEntryView>) -> TextAreaView {
    let v0 = prompt_view(listing_header(dir));
    let v1 = insert_text_result(v0, v0.row, v0.col, seq!['d', ' ', '.']);
    let v2 = append_line_result(v1, seq!['d', ' ', '.', '.']);
    let v3 = TextAreaView { lines: v2.lines + entries.map_values(|e: DirEntryView| listing_line(e)), ..v2 };
    goto_result(v3, 5, 0)
}

/// The editor as it starts: a single empty line, directory mode, nothing copied,
/// typed or recorded.
pub open spec fn initial_view(prompt: Seq<char>) -> EditorView {
    EditorView {
        text: empty_view(),
        history: UndoHistoryView {
            undo_stack: Seq::empty(),
            redo_stack: Seq::empty(),
            current_block: Seq::empty(),
        },
        mode: VimMode::Directory,
        num_str: Seq::empty(),
        cmd_str: Seq::empty(),
        copy_lines: Seq::empty(),
        has_copy_newline: false,
        scroll_row: 0,
        view_rows: 0,
        input: None,
        prompt,
        ime_active: false,
        entries: Seq::empty(),
        file_select_offset: 0,
    }
}

/// The numbers of the lines from `from` up to `to`, each right-aligned in
/// `width` columns between spaces and ended by a line feed.
pub open spec fn line_numbers(from: int, to: int, width: int) -> Seq<char>
    decreases to - from,
{
    if to <= from {
        Seq::empty()
    } else {
        line_numbers(from, to - 1, width) + seq![' '] + pad_left(decimal(to as nat), width)
            + seq![' ', '\n']
    }
}

/// The only character of `s`, when it has exactly one.
fn single_char(s: &str) -> (c: Option<char>)
    ensures
        c == single(s@),
{
    if s.unicode_len() == 1 {
        Some(s.get_char(0))
    } else {
        None
    }
}

/// Whether the characters of `s` from `from` on are `a` followed by `b` (or `a`
/// alone when `b` is `None`).
fn chars_from_are(s: &str, from: usize, a: char, b: Option<char>) -> (r: bool)
    requires
        from <= s@.len(),
    ensures
        r == (s@.skip(from as int) == match b {
            Some(b) => seq![a, b],
            None => seq![a],
        }),
{
    let n = s.unicode_len();
    let rest = Ghost(s@.skip(from as int));
    let want = Ghost(
        match b {
            Some(b) => seq![a, b],
            None => seq![a],
        },
    );
    let len: usize = match b {
        Some(_) => 2,
        None => 1,
    };
    if n - from != len {
        assert(rest@.len() != want@.len());
        return false;
    }
    let x = s.get_char(from);
    assert(rest@[0] == x);
    if x != a {
        assert(rest@[0] != want@[0]);
        return false;
    }
    match b {
        Some(b) => {
            let y = s.get_char(from + 1);
            assert(rest@[1] == y);
            if y != b {
                assert(rest@[1] != want@[1]);
                return false;
            }
            assert(rest@ =~= want@);
            true
        },
        None => {
            assert(rest@ =~= want@);
            true
        },
    }
}

/// Whether the caret is shown `elapsed_ms` milliseconds after the last key: it
/// blinks only in insert mode, once the delay after a key has passed.
pub open spec fn caret_shown(elapsed_ms: int, mode: VimMode) -> bool {
    elapsed_ms < CARET_BLINK_DELAY_MS || mode != VimMode::Insert
        || ((elapsed_ms - CARET_BLINK_DELAY_MS) / (CARET_BLINK_PERIOD_MS as int)) % 2 == 0
}

/// Whether the caret is shown `elapsed_ms` milliseconds after the last key in
/// mode `mode`.
pub fn caret_visible(elapsed_ms: u128, mode: VimMode) -> (shown: bool)
    ensures
        shown == caret_shown(elapsed_ms as int, mode),
{
    if elapsed_ms < CARET_BLINK_DELAY_MS || mode != VimMode::Insert {
        true
    } else {
        ((elapsed_ms - CARET_BLINK_DELAY_MS) / CARET_BLINK_PERIOD_MS) % 2 == 0
    }
}

impl Editor {
    /// What always holds of the editor.
    pub open spec fn wf(&self) -> bool {
        editor_ok(self@)
    }

    /// Copies `count` lines from line `offset` on.
    fn copy_lines(&mut self, offset: usize, count: usize)
        ensures
            final(self)@ == (EditorView {
                copy_lines: lines_from(old(self)@.text, offset as int, count as int),
                has_copy_newline: true,
                ..old(self)@
            }),
    {
        self.copy_lines = self.text_area.lines_with(offset, count);
        self.has_copy_newline = true;
    }

    /// Scrolls so that the cursor row is on screen; says whether the view moved.
    fn scroll_row(&mut self) -> (moved: bool)
        requires
            scroll_safe(old(self)@),
            0 <= old(self)@.text.row,
        ensures
            final(self)@ == scrolled(old(self)@),
            moved == scroll_moves(old(self)@),
    {
        let (cursor_row, _) = self.text_area.cursor_position();
        if cursor_row < self.scroll_row {
            let old_scroll_row = self.scroll_row;
            self.scroll_row = cursor_row;
            return old_scroll_row != self.scroll_row;
        }
        if self.view_rows > 0 && cursor_row - self.scroll_row + 2 >= self.view_rows {
            let old_scroll_row = self.scroll_row;
            self.scroll_row = cursor_row + 2 - self.view_rows + 1;
            return old_scroll_row != self.scroll_row;
        }
        false
    }

    /// The count typed before a line command (one when none was typed), which
    /// the command uses up.
    fn take_line_count(&mut self) -> (n: usize)
        ensures
            n == line_count_arg(old(self)@).0,
            final(self)@ == (EditorView { num_str: line_count_arg(old(self)@).1, ..old(self)@ }),
    {
        if self.vim_state.num_str.as_str().unicode_len() == 0 {
            1
        } else {
            let n = match parse_usize(self.vim_state.num_str.as_str()) {
                Some(n) => n,
                None => 1,
            };
            self.vim_state.num_str = String::new();
            n
        }
    }

    /// Adds `cmd` to the block being built in the history.
    fn record(&mut self, cmd: Command)
        requires
            history_ok(old(self)@.history),
            crate::undo::well_formed(cmd@),
        ensures
            final(self)@ == (EditorView { history: recorded(old(self)@.history, cmd@), ..old(self)@ }),
            history_ok(final(self)@.history),
    {
        self.undo_history.record(cmd);
    }

    /// Ends the block being built in the history.
    fn start_new_block(&mut self)
        requires
            history_ok(old(self)@.history),
        ensures
            final(self)@ == (EditorView { history: closed_block(old(self)@.history), ..old(self)@ }),
            history_ok(final(self)@.history),
    {
        self.undo_history.start_new_block();
    }

    /// Handles the text of a key typed after a pending operator.
    fn run_pending_command(&mut self, c: &str) -> (out: Outcome)
        requires
            old(self).wf(),
            old(self)@.cmd_str + c@ == seq!['g', 'g'] ==> scroll_safe(
                EditorView { text: goto_result(old(self)@.text, 0, 0), ..old(self)@ },
            ),
        ensures
            final(self).wf(),
            (final(self)@, out@) == pending_command(old(self)@, old(self)@.cmd_str + c@),
    {
        let mut out = Outcome { reset_blink: false, redraw: false, action: Action::Nothing };
        self.vim_state.cmd_str.append(c);
        let cmd = self.vim_state.cmd_str.as_str();
        assert(cmd@.skip(0) =~= cmd@);
        if chars_from_are(cmd, 0, 'd', Some('d')) {
            self.vim_state.cmd_str = String::new();
            let line_count = self.take_line_count();
            let (row, _) = self.text_area.cursor_position();
            let total = self.text_area.line_count();
            self.copy_lines(row, line_count);
            let emptied = line_count >= total;
            let deleted = if emptied {
                let all = self.text_area.lines_with(0, total);
                assert(lines_from(self@.text, 0, total as int) =~= self@.text.lines);
                all
            } else {
                crate::undo::clone_strings(&self.copy_lines)
            };
            self.text_area.delete_lines_at_cursor(line_count);
            let at = if emptied { 0 } else { row };
            self.record(Command::DeleteLines(DeleteLinesCmd::new(at, 0, deleted, emptied)));
            self.start_new_block();
        } else if chars_from_are(cmd, 0, 'd', Some('$')) {
            self.vim_state.cmd_str = String::new();
            self.text_area.delete_to_end_of_line();
        } else if chars_from_are(cmd, 0, 'd', Some('^')) {
            self.vim_state.cmd_str = String::new();
            self.text_area.delete_to_start_of_line();
        } else if chars_from_are(cmd, 0, 'g', Some('g')) {
            self.vim_state.cmd_str = String::new();
            self.text_area.goto_cursor(0, 0);
            out.redraw = self.scroll_row();
        } else if chars_from_are(cmd, 0, 'y', Some('y')) {
            self.vim_state.cmd_str = String::new();
            let line_count = self.take_line_count();
            let (row, _) = self.text_area.cursor_position();
            self.copy_lines(row, line_count);
        }
        out
    }

    /// Handles a one-character key in command mode with no operator pending.
    fn run_command_char(&mut self, c: &str) -> (out: Outcome)
        requires
            old(self).wf(),
            command_safe(old(self)@, KeyView::Character(c@)),
            old(self)@.mode == VimMode::Command,
            !old(self)@.ime_active,
            old(self)@.cmd_str.len() == 0,
        ensures
            final(self).wf(),
            (final(self)@, out@) == command_char(old(self)@, c@),
    {
        let mut out = Outcome { reset_blink: false, redraw: false, action: Action::Nothing };
        let ch = match single_char(c) {
            Some(ch) => ch,
            None => {
                return out;
            },
        };
        if '0' <= ch && ch <= '9' {
            self.vim_state.num_str.append(c);
        } else if ch == '$' {
            self.text_area.end_offset_of_line_cursor(1);
        } else if ch == '^' {
            self.text_area.first_non_blank_of_line_cursor();
        } else if ch == 'a' {
            self.text_area.move_right_cursor();
            self.vim_state.mode = VimMode::Insert;
        } else if ch == 'A' {
            self.text_area.end_of_line_cursor();
            self.vim_state.mode = VimMode::Insert;
        } else if ch == 'd' || ch == 'g' || ch == 'y' {
            self.vim_state.cmd_str.append(c);
        } else if ch == 'D' {
            self.text_area.delete_to_end_of_line();
        } else if ch == 'G' {
            let line_count = self.text_area.line_count();
            let last_line = if line_count >= 1 { line_count - 1 } else { 0 };
            let mut line_num: usize;
            if self.vim_state.num_str.as_str().unicode_len() == 0 {
                line_num = last_line;
            } else {
                line_num = match parse_usize(self.vim_state.num_str.as_str()) {
                    Some(n) => n,
                    None => 0,
                };
                line_num = if line_num <= last_line { line_num } else { last_line };
                self.vim_state.num_str = String::new();
            }
            self.text_area.goto_cursor(line_num, 0);
            out.redraw = self.scroll_row();
        } else if ch == 'h' {
            self.text_area.move_left_cursor();
            out.reset_blink = true;
        } else if ch == 'H' {
            let (_, cursor_col) = self.text_area.cursor_position();
            self.text_area.goto_cursor(self.scroll_row, cursor_col);
        } else if ch == 'i' {
            self.vim_state.mode = VimMode::Insert;
        } else if ch == 'I' {
            self.text_area.start_of_line_cursor();
            self.vim_state.mode = VimMode::Insert;
        } else if ch == 'j' {
            self.text_area.move_down_cursor();
            out.reset_blink = true;
            out.redraw = self.scroll_row();
        } else if ch == 'k' {
            self.text_area.move_up_cursor();
            out.reset_blink = true;
            out.redraw = self.scroll_row();
        } else if ch == 'l' {
            self.text_area.move_right1_cursor();
            out.reset_blink = true;
        } else if ch == 'L' {
            let (_, cursor_col) = self.text_area.cursor_position();
            self.text_area.goto_cursor(self.scroll_row + self.view_rows - 1, cursor_col);
        } else if ch == 'M' {
            let (_, cursor_col) = self.text_area.cursor_position();
            let mut row = self.scroll_row + self.view_rows / 2;
            let half = self.text_area.line_count() / 2;
            row = if row <= half { row } else { half };
            self.text_area.goto_cursor(row, cursor_col);
        } else if ch == 'o' {
            let (cursor_row, _) = self.text_area.cursor_position();
            let cursor_end = match self.text_area.line_length(cursor_row) {
                Some(n) => n,
                None => 0,
            };
            self.text_area.new_line_below_cursor();
            self.vim_state.mode = VimMode::Insert;
            self.record(Command::InsertNewline(InsertNewlineCmd::new(cursor_row, cursor_end)));
        } else if ch == 'O' {
            let (cursor_row, _) = self.text_area.cursor_position();
            self.text_area.new_line_above_cursor();
            self.vim_state.mode = VimMode::Insert;
            self.record(Command::InsertNewline(InsertNewlineCmd::new(cursor_row, 0)));
        } else if ch == 'p' || ch == 'P' {
            self.paste(ch == 'p');
        } else if ch == 'u' {
            self.undo_history.undo(&mut self.text_area);
            self.text_area.clamp1_cursor();
        } else if ch == 'v' {
            self.vim_state.mode = VimMode::Visual;
        } else if ch == 'x' {
            let (cursor_row, cursor_col) = self.text_area.cursor_position();
            let s = self.text_area.line_string_slice(cursor_row, cursor_col, 1);
            self.text_area.delete_char_after_cursor(false);
            if let Some(s) = s {
                self.record(Command::DeleteText(DeleteTextCmd::new(cursor_row, cursor_col, s)));
                self.start_new_block();
            }
        } else if ch == 'X' {
            let (cursor_row, cursor_col) = self.text_area.cursor_position();
            let s = if cursor_col == 0 {
                None
            } else {
                self.text_area.line_string_slice(cursor_row, cursor_col - 1, 1)
            };
            self.text_area.delete_char_before_cursor(false);
            if let Some(s) = s {
                self.record(
                    Command::DeleteText(DeleteTextCmd::new(cursor_row, cursor_col - 1, s)),
                );
                self.start_new_block();
            }
        } else if ch == 'Y' {
            let line_count = self.take_line_count();
            let (cursor_row, _) = self.text_area.cursor_position();
            self.copy_lines(cursor_row, line_count);
        } else if ch == ':' {
            self.vim_state.mode = VimMode::CommandLine;
            let mut text_input = TextArea::new();
            proof {
                reveal_strlit(":");
            }
            assert(":"@ =~= seq![':']);
            text_input.insert_text_at_cursor(":");
            self.text_input = Some(text_input);
        }
        out
    }

    /// Handles a key in command mode.
    pub fn handle_key_in_command_mode(&mut self, key: &Key) -> (out: Outcome)
        requires
            old(self).wf(),
            command_safe(old(self)@, key@),
        ensures
            final(self).wf(),
            (final(self)@, out@) == command_step(old(self)@, key@),
    {
        if self.vim_state.mode != VimMode::Command {
            return Outcome { reset_blink: false, redraw: false, action: Action::Nothing };
        }
        match key {
            Key::Named(NamedKey::Escape) => {
                self.vim_state.num_str = String::new();
                self.vim_state.cmd_str = String::new();
                Outcome { reset_blink: false, redraw: false, action: Action::Nothing }
            },
            Key::Character(c) => {
                if self.is_ime_active {
                    return Outcome { reset_blink: false, redraw: false, action: Action::Nothing };
                }
                if self.vim_state.cmd_str.as_str().unicode_len() > 0 {
                    self.run_pending_command(c.as_str())
                } else {
                    self.run_command_char(c.as_str())
                }
            },
            _ => Outcome { reset_blink: false, redraw: false, action: Action::Nothing },
        }
    }

    /// Leaves insert mode.
    pub fn esc_insert_mode(&mut self)
        requires
            old(self).wf(),
        ensures
            final(self).wf(),
            final(self)@ == esc_insert(old(self)@),
    {
        self.vim_state.mode = VimMode::Command;
        self.text_area.clamp1_cursor();
        self.start_new_block();
    }

    /// Handles a key in insert mode; `ctrl` tells whether Control is held.
    pub fn handle_key_in_insert_mode(&mut self, key: &Key, ctrl: bool) -> (out: Outcome)
        requires
            old(self).wf(),
            insert_safe(old(self)@, key@, ctrl),
        ensures
            final(self).wf(),
            (final(self)@, out@) == insert_step(old(self)@, key@, ctrl),
    {
        if self.vim_state.mode != VimMode::Insert {
            return Outcome { reset_blink: false, redraw: false, action: Action::Nothing };
        }
        let quiet = Outcome { reset_blink: false, redraw: false, action: Action::Nothing };
        let blink = Outcome { reset_blink: true, redraw: false, action: Action::Nothing };
        match key {
            Key::Named(NamedKey::Escape) => {
                self.esc_insert_mode();
                quiet
            },
            Key::Named(NamedKey::Delete) => {
                let (cursor_row, cursor_col) = self.text_area.cursor_position();
                let line_length = match self.text_area.line_length(cursor_row) {
                    Some(n) => n,
                    None => 0,
                };
                let line_count = self.text_area.line_count();
                let s = if cursor_col >= line_length {
                    None
                } else {
                    self.text_area.line_string_slice(cursor_row, cursor_col, 1)
                };
                self.text_area.delete_char_after_cursor(true);
                if let Some(s) = s {
                    self.record(
                        Command::DeleteText1(DeleteText1Cmd::new(cursor_row, cursor_col, s)),
                    );
                } else if cursor_col >= line_length && cursor_row < line_count - 1 {
                    self.record(
                        Command::DeleteNewline(DeleteNewlineCmd::new(cursor_row, cursor_col)),
                    );
                }
                blink
            },
            Key::Named(NamedKey::Backspace) => {
                let (cursor_row, cursor_col) = self.text_area.cursor_position();
                let s = if cursor_col == 0 {
                    None
                } else {
                    self.text_area.line_string_slice(cursor_row, cursor_col - 1, 1)
                };
                let previous_line_length = if cursor_row == 0 {
                    0
                } else {
                    match self.text_area.line_length(cursor_row - 1) {
                        Some(n) => n,
                        None => 0,
                    }
                };
                self.text_area.delete_char_before_cursor(true);
                if let Some(s) = s {
                    self.record(
                        Command::DeleteText1(DeleteText1Cmd::new(cursor_row, cursor_col - 1, s)),
                    );
                } else if cursor_col == 0 && cursor_row > 0 {
                    self.record(
                        Command::DeleteNewline(
                            DeleteNewlineCmd::new(cursor_row - 1, previous_line_length),
                        ),
                    );
                }
                blink
            },
            Key::Named(NamedKey::Space) => {
                proof {
                    reveal_strlit(" ");
                }
                assert(" "@ =~= seq![' ']);
                self.text_area.insert_text_at_cursor(" ");
                blink
            },
            Key::Named(NamedKey::Enter) => {
                let (cursor_row, cursor_col) = self.text_area.cursor_position();
                self.text_area.insert_newline_at_cursor();
                let redraw = self.scroll_row();
                self.record(Command::InsertNewline(InsertNewlineCmd::new(cursor_row, cursor_col)));
                Outcome { reset_blink: true, redraw, action: Action::Nothing }
            },
            Key::Character(c) => {
                if self.is_ime_active {
                    return quiet;
                }
                if ctrl && chars_from_are(c.as_str(), 0, '[', None) {
                    assert(c@.skip(0) =~= c@);
                    self.esc_insert_mode();
                    return quiet;
                }
                assert(c@.skip(0) =~= c@);
                let (cursor_row, cursor_col) = self.text_area.cursor_position();
                self.text_area.insert_text_at_cursor(c.as_str());
                let text = c.clone();
                self.record(Command::InsertText(InsertTextCmd::new(cursor_row, cursor_col, text)));
                blink
            },
            _ => quiet,
        }
    }

    /// Handles a key while a `:` command is typed.
    pub fn handle_key_in_command_line_mode(&mut self, key: &Key) -> (out: Outcome)
        requires
            old(self).wf(),
            command_line_safe(old(self)@, key@),
        ensures
            final(self).wf(),
            (final(self)@, out@) == command_line_step(old(self)@, key@),
    {
        if self.vim_state.mode != VimMode::CommandLine {
            return Outcome { reset_blink: false, redraw: false, action: Action::Nothing };
        }
        let quiet = Outcome { reset_blink: false, redraw: false, action: Action::Nothing };
        let blink = Outcome { reset_blink: true, redraw: false, action: Action::Nothing };
        let mut text_input = match self.text_input.take() {
            Some(t) => t,
            None => {
                return quiet;
            },
        };
        match key {
            Key::Named(NamedKey::Enter) => {
                let input_text = text_input.string();
                let cmd = input_text.as_str();
                let action = if chars_from_are(cmd, 1, ',', Some('d')) {
                    self.vim_state.mode = VimMode::Directory;
                    return Outcome {
                        reset_blink: false,
                        redraw: false,
                        action: Action::ListDirectory,
                    };
                } else if chars_from_are(cmd, 1, 'w', None) {
                    Action::Save
                } else if chars_from_are(cmd, 1, 'w', Some('q')) {
                    Action::SaveAndQuit
                } else if chars_from_are(cmd, 1, 'q', None) || chars_from_are(
                    cmd,
                    1,
                    'q',
                    Some('a'),
                ) {
                    Action::Quit
                } else {
                    Action::Nothing
                };
                self.vim_state.mode = VimMode::Command;
                Outcome { reset_blink: false, redraw: false, action }
            },
            Key::Named(NamedKey::Escape) => blink,
            Key::Named(NamedKey::Backspace) => {
                text_input.delete_char_before_cursor(true);
                if text_input.is_empty() {
                    self.vim_state.mode = VimMode::Command;
                } else {
                    self.text_input = Some(text_input);
                }
                blink
            },
            Key::Character(c) => {
                text_input.insert_text_at_cursor(c.as_str());
                self.text_input = Some(text_input);
                quiet
            },
            _ => {
                self.text_input = Some(text_input);
                quiet
            },
        }
    }

    /// Handles a key in directory mode.
    pub fn handle_key_in_directory_mode(&mut self, key: &Key) -> (out: Outcome)
        requires
            old(self).wf(),
            directory_safe(old(self)@, key@),
        ensures
            final(self).wf(),
            (final(self)@, out@) == directory_step(old(self)@, key@),
    {
        if self.vim_state.mode != VimMode::Directory {
            return Outcome { reset_blink: false, redraw: false, action: Action::Nothing };
        }
        let quiet = Outcome { reset_blink: false, redraw: false, action: Action::Nothing };
        let blink = Outcome { reset_blink: true, redraw: false, action: Action::Nothing };
        match key {
            Key::Named(k) => {
                if self.text_input.is_some() {
                    let mut text_input = self.text_input.take().unwrap();
                    match k {
                        NamedKey::Enter => {
                            let input_text = text_input.string();
                            let skip = self.text_input_prompt.as_str().unicode_len();
                            let n = input_text.as_str().unicode_len();
                            let filename = crate::text::char_substring(input_text.as_str(), skip, n);
                            assert(filename@ =~= join_lines(text_input@.lines).skip(skip as int));
                            self.text_input = Some(text_input);
                            Outcome {
                                reset_blink: false,
                                redraw: false,
                                action: Action::CreateFile(filename),
                            }
                        },
                        NamedKey::Escape => blink,
                        NamedKey::Backspace => {
                            text_input.delete_char_before_cursor(true);
                            self.text_input = Some(text_input);
                            blink
                        },
                        _ => {
                            self.text_input = Some(text_input);
                            quiet
                        },
                    }
                } else {
                    match k {
                        NamedKey::Enter => {
                            let (cursor_row, _) = self.text_area.cursor_position();
                            if cursor_row == self.file_select_offset {
                                quiet
                            } else if cursor_row == self.file_select_offset + 1 {
                                Outcome {
                                    reset_blink: false,
                                    redraw: false,
                                    action: Action::ParentDirectory,
                                }
                            } else {
                                let index = cursor_row - self.file_select_offset - 2;
                                if index < self.fileinfos.len() {
                                    let entry = &self.fileinfos[index];
                                    let name = entry.name.clone();
                                    if entry.is_dir {
                                        Outcome {
                                            reset_blink: false,
                                            redraw: false,
                                            action: Action::EnterDirectory(name),
                                        }
                                    } else {
                                        Outcome {
                                            reset_blink: false,
                                            redraw: false,
                                            action: Action::OpenFile(name),
                                        }
                                    }
                                } else {
                                    quiet
                                }
                            }
                        },
                        _ => quiet,
                    }
                }
            },
            Key::Character(c) => {
                if self.is_ime_active {
                    return quiet;
                }
                if self.text_input.is_some() {
                    let mut text_input = self.text_input.take().unwrap();
                    text_input.insert_text_at_cursor(c.as_str());
                    self.text_input = Some(text_input);
                    return quiet;
                }
                match single_char(c.as_str()) {
                    Some('G') => {
                        let line_count = self.text_area.line_count();
                        self.text_area.goto_cursor(line_count - 1, 0);
                        quiet
                    },
                    Some('h') => {
                        self.text_area.move_left_cursor();
                        blink
                    },
                    Some('j') => {
                        self.text_area.move_down_cursor();
                        blink
                    },
                    Some('k') => {
                        self.text_area.move_up_cursor();
                        blink
                    },
                    Some('l') => {
                        self.text_area.move_right_cursor();
                        blink
                    },
                    Some('n') => {
                        proof {
                            crate::text::lemma_lines_of_nonempty(self@.prompt);
                        }
                        self.text_input = Some(TextArea::from_prompt(self.text_input_prompt.as_str()));
                        blink
                    },
                    _ => quiet,
                }
            },
            Key::Other => quiet,
        }
    }

    /// Handles a key by the editor's mode; `ctrl` tells whether Control is held.
    pub fn handle_key(&mut self, key: &Key, ctrl: bool) -> (out: Outcome)
        requires
            old(self).wf(),
            key_safe(old(self)@, key@, ctrl),
        ensures
            final(self).wf(),
            (final(self)@, out@) == key_step(old(self)@, key@, ctrl),
    {
        match self.vim_state.mode {
            VimMode::Directory => self.handle_key_in_directory_mode(key),
            VimMode::Command => self.handle_key_in_command_mode(key),
            VimMode::CommandLine => self.handle_key_in_command_line_mode(key),
            VimMode::Insert => self.handle_key_in_insert_mode(key, ctrl),
            VimMode::Visual => Outcome { reset_blink: false, redraw: false, action: Action::Nothing },
        }
    }

    /// A new editor in directory mode; `prompt` is the text before a new file's
    /// name.
    pub fn new(prompt: &str) -> (e: Editor)
        requires
            prompt@.len() > 0,
        ensures
            e.wf(),
            e@ == initial_view(prompt@),
    {
        let e = Editor {
            text_area: TextArea::new(),
            undo_history: UndoHistory::new(),
            vim_state: VimState { mode: VimMode::Directory, num_str: String::new(), cmd_str: String::new() },
            has_copy_newline: false,
            copy_lines: Vec::new(),
            scroll_row: 0,
            view_rows: 0,
            text_input: None,
            text_input_prompt: prompt.to_owned(),
            is_ime_active: false,
            fileinfos: Vec::new(),
            file_select_offset: 0,
        };
        assert(e@.copy_lines =~= Seq::<Seq<char>>::empty());
        assert(e@.entries =~= Seq::<DirEntryView>::empty());
        e
    }

    /// Shows the listing of directory `dir`, whose entries are `entries` (in any
    /// order), ordered by name, with the cursor on its `d .` row.
    pub fn update_fileinfos(&mut self, dir: &str, entries: Vec<DirEntry>)
        requires
            old(self).wf(),
        ensures
            final(self).wf(),
            sorted_by_name(final(self)@.entries),
            forall|n: Seq<char>| #[trigger] named(final(self)@.entries, n) == named(
                entries_view(entries@),
                n,
            ),
            final(self)@ == (EditorView {
                text: listing_view(dir@, final(self)@.entries),
                entries: final(self)@.entries,
                file_select_offset: 5,
                ..old(self)@
            }),
    {
        let entries = sort_by_name(entries);
        self.file_select_offset = 5;
        let mut prompt = String::new();
        prompt.append(HEADER_START);
        prompt.append(dir);
        prompt.append(HEADER_END);
        proof {
            reveal_strlit("\n说明: d 表示目录 - 表示文件\n\" 帮助: hjkl:光标移动 n:新建文件\n\" =========================================\n\n");
            let x = HEADER_START@ + dir@ + HEADER_END@.drop_last().drop_last();
            assert(listing_header(dir@) =~= x + seq!['\n', '\n']);
            crate::text::lemma_lines_of_blank_end(x);
        }
        let mut text_area = TextArea::from_prompt(prompt.as_str());
        proof {
            reveal_strlit("d .");
            reveal_strlit("d ..");
        }
        assert("d ."@ =~= seq!['d', ' ', '.']);
        assert("d .."@ =~= seq!['d', ' ', '.', '.']);
        text_area.insert_text_at_cursor("d .");
        text_area.append_line("d ..");
        let ghost base = text_area@;
        let mut i: usize = 0;
        while i < entries.len()
            invariant
                i <= entries@.len(),
                text_area.wf(),
                text_area@ == (TextAreaView {
                    lines: base.lines + entries@.take(i as int).map_values(
                        |e: DirEntry| listing_line(e@),
                    ),
                    ..base
                }),
            decreases entries@.len() - i,
        {
            let line = listing_line_string(&entries[i]);
            text_area.append_line(line.as_str());
            proof {
                assert(entries@.take(i + 1).map_values(|e: DirEntry| listing_line(e@))
                    =~= entries@.take(i as int).map_values(|e: DirEntry| listing_line(e@)).push(
                    listing_line(entries@[i as int]@),
                ));
            }
            i = i + 1;
        }
        proof {
            assert(entries@.take(entries@.len() as int) =~= entries@);
            assert(entries@.map_values(|e: DirEntry| listing_line(e@)) =~= entries@.map_values(
                |e: DirEntry| e@,
            ).map_values(|e: DirEntryView| listing_line(e)));
        }
        text_area.goto_cursor(5, 0);
        self.text_area = text_area;
        self.fileinfos = entries;
    }

    /// Shows `content`, the text of the file just opened from the listing, in
    /// command mode.
    pub fn open_file_text(&mut self, content: &str)
        requires
            old(self).wf(),
            old(self)@.mode == VimMode::Directory,
        ensures
            final(self).wf(),
            final(self)@ == (EditorView {
                text: string_view(content@),
                mode: VimMode::Command,
                ..old(self)@
            }),
    {
        self.vim_state.mode = VimMode::Command;
        self.text_area = TextArea::from_string(content);
    }

    /// Starts editing a file just created from the listing: the name prompt
    /// closes, the buffer empties, command mode.
    pub fn start_new_file(&mut self)
        requires
            old(self).wf(),
            old(self)@.mode == VimMode::Directory,
        ensures
            final(self).wf(),
            final(self)@ == (EditorView {
                text: empty_view(),
                mode: VimMode::Command,
                input: None,
                ..old(self)@
            }),
    {
        self.text_input = None;
        self.vim_state.mode = VimMode::Command;
        self.text_area = TextArea::new();
    }

    /// Text committed by an input method: typed at the cursor in insert mode
    /// (not recorded for undo); says whether it was.
    pub fn commit_ime_text(&mut self, text: &str) -> (typed: bool)
        requires
            old(self).wf(),
            old(self)@.mode == VimMode::Insert ==> old(self)@.text.col + text@.len() <= usize::MAX,
        ensures
            final(self).wf(),
            typed == (old(self)@.mode == VimMode::Insert),
            final(self)@ == (if typed {
                with_text(
                    old(self)@,
                    insert_text_result(old(self)@.text, old(self)@.text.row, old(self)@.text.col, text@),
                )
            } else {
                old(self)@
            }),
    {
        if self.vim_state.mode == VimMode::Insert {
            self.text_area.insert_text_at_cursor(text);
            true
        } else {
            false
        }
    }

    /// Records whether an input method is composing text.
    pub fn set_ime_active(&mut self, active: bool)
        requires
            old(self).wf(),
        ensures
            final(self).wf(),
            final(self)@ == (EditorView { ime_active: active, ..old(self)@ }),
    {
        self.is_ime_active = active;
    }

    /// Records how many rows the window shows.
    pub fn set_view_rows(&mut self, rows: usize)
        requires
            old(self).wf(),
        ensures
            final(self).wf(),
            final(self)@ == (EditorView { view_rows: rows as int, ..old(self)@ }),
    {
        self.view_rows = rows;
    }

    /// Moves the buffer's cursor into its text before drawing.
    pub fn clamp_cursor(&mut self)
        requires
            old(self).wf(),
        ensures
            final(self).wf(),
            final(self)@ == with_text(old(self)@, clamp_result(old(self)@.text)),
    {
        self.text_area.clamp_cursor();
    }

    /// The buffer.
    pub fn text_area(&self) -> (t: &TextArea)
        ensures
            t@ == self@.text,
    {
        &self.text_area
    }

    /// The prompt line being typed, if any.
    pub fn text_input(&self) -> (t: Option<&TextArea>)
        ensures
            t matches Some(x) ==> self@.input == Some(x@),
            t is None ==> self@.input is None,
    {
        match &self.text_input {
            Some(x) => Some(x),
            None => None,
        }
    }

    /// The mode.
    pub fn mode(&self) -> (m: VimMode)
        ensures
            m == self@.mode,
    {
        self.vim_state.mode
    }

    /// The first row shown.
    pub fn scroll_row_position(&self) -> (r: usize)
        ensures
            r == self@.scroll_row,
    {
        self.scroll_row
    }

    /// How many rows the window shows.
    pub fn view_rows(&self) -> (r: usize)
        ensures
            r == self@.view_rows,
    {
        self.view_rows
    }

    /// The text before the cursor on its line, and the lines above it that are on
    /// screen (empty ones shown as `Mg`): what places the caret, on the prompt
    /// line when one is open, else in the buffer.
    pub fn cursor_text(&self) -> (texts: (String, String))
        requires
            self.wf(),
        ensures
            ({
                let t = match self@.input {
                    Some(i) => i,
                    None => self@.text,
                };
                let offset = match self@.input {
                    Some(_) => 0,
                    None => self@.scroll_row,
                };
                &&& texts.0@ == (if t.row < t.lines.len() {
                    prefix(t.lines[t.row], t.col)
                } else {
                    Seq::<char>::empty()
                })
                &&& texts.1@ == join_lines(shown_lines(before_cursor(t, offset), true))
            }),
    {
        match &self.text_input {
            Some(text_input) => (
                text_input.cursor_prefix_string(),
                text_input.measure_lines_before_cursor_string(0),
            ),
            None => (
                self.text_area.cursor_prefix_string(),
                self.text_area.measure_lines_before_cursor_string(self.scroll_row),
            ),
        }
    }

    /// The numbers of the lines on screen, one per line, each right-aligned to
    /// the width of the number of lines.
    pub fn line_numbers_text(&self) -> (s: String)
        requires
            self.wf(),
            self@.scroll_row + self@.view_rows + 1 <= usize::MAX,
        ensures
            s@ == line_numbers(
                self@.scroll_row,
                min(self@.text.lines.len() as int, self@.scroll_row + self@.view_rows + 1),
                decimal(self@.text.lines.len()).len() as int,
            ),
    {
        let line_count = self.text_area.line_count();
        assert(line_count as u64 == line_count);
        let width = decimal_string(line_count as u64).as_str().unicode_len();
        let start = self.scroll_row;
        let limit = self.scroll_row + self.view_rows + 1;
        let end = if line_count <= limit { line_count } else { limit };
        let mut text = String::new();
        let mut i = start;
        while i < end
            invariant
                start <= i,
                i <= end || i == start,
                end <= line_count,
                text@ == line_numbers(start as int, i as int, width as int),
            decreases end - i,
        {
            string_push(&mut text, ' ');
            assert((i + 1) as u64 == i + 1);
            let number = decimal_string((i + 1) as u64);
            push_padded_left(&mut text, number.as_str(), width);
            string_push(&mut text, ' ');
            string_push(&mut text, '\n');
            i = i + 1;
            assert(text@ =~= line_numbers(start as int, i as int, width as int));
        }
        proof {
            if end < start {
                assert(line_numbers(start as int, end as int, width as int) =~= Seq::<char>::empty());
            }
        }
        text
    }

    /// Whether computing the scroll target for cursor row `row` stays within `usize`.
    fn scroll_safe_for(&self, row: usize) -> (b: bool)
        ensures
            b == scroll_safe_row(row as int, self@.scroll_row, self@.view_rows),
    {
        if row < self.scroll_row || self.view_rows == 0 {
            return true;
        }
        let a = row - self.scroll_row;
        if a > usize::MAX - 2 {
            return false;
        }
        if a + 2 >= self.view_rows {
            row <= usize::MAX - 2
        } else {
            true
        }
    }

    /// Whether `key` is among those the editor handles in its current mode
    /// without panicking or overflowing (see `handle_key`).
    pub fn key_is_safe(&self, key: &Key, ctrl: bool) -> (b: bool)
        requires
            self.wf(),
        ensures
            b == key_safe(self@, key@, ctrl),
    {
        let (row, col) = self.text_area.cursor_position();
        let line_count = self.text_area.line_count();
        match self.vim_state.mode {
            VimMode::Directory => match key {
                Key::Named(NamedKey::Enter) => match &self.text_input {
                    Some(ti) => {
                        let typed = ti.string();
                        typed.as_str().unicode_len() >= self.text_input_prompt.as_str().unicode_len()
                    },
                    None => row >= self.file_select_offset,
                },
                Key::Character(c) => match &self.text_input {
                    Some(ti) => {
                        let (_, input_col) = ti.cursor_position();
                        self.is_ime_active || c.as_str().unicode_len() <= usize::MAX - input_col
                    },
                    None => true,
                },
                _ => true,
            },
            VimMode::Command => match key {
                Key::Character(c) => {
                    if self.is_ime_active {
                        return true;
                    }
                    if self.vim_state.cmd_str.as_str().unicode_len() > 0 {
                        let mut cmd = self.vim_state.cmd_str.clone();
                        cmd.append(c.as_str());
                        assert(cmd@.skip(0) =~= cmd@);
                        if chars_from_are(cmd.as_str(), 0, 'g', Some('g')) {
                            return self.scroll_safe_for(0);
                        }
                        return true;
                    }
                    match single_char(c.as_str()) {
                        Some('G') => {
                            let last = line_count - 1;
                            let line_num = if self.vim_state.num_str.as_str().unicode_len() == 0 {
                                last
                            } else {
                                let n = match parse_usize(self.vim_state.num_str.as_str()) {
                                    Some(n) => n,
                                    None => 0,
                                };
                                if n <= last { n } else { last }
                            };
                            self.scroll_safe_for(line_num)
                        },
                        Some('j') => {
                            let next = if row < line_count - 1 { row + 1 } else { row };
                            self.scroll_safe_for(next)
                        },
                        Some('k') => {
                            let (frozen_row, _) = self.text_area.frozen_position();
                            let next = if row > frozen_row { row - 1 } else { row };
                            self.scroll_safe_for(next)
                        },
                        Some('L') => {
                            (self.scroll_row > 0 || self.view_rows > 0) && self.view_rows
                                <= usize::MAX - self.scroll_row
                        },
                        Some('M') => self.view_rows / 2 <= usize::MAX - self.scroll_row,
                        Some('p') => {
                            if self.copy_lines.len() > 0 && !self.has_copy_newline {
                                col < usize::MAX && self.copy_lines[0].as_str().unicode_len()
                                    <= usize::MAX - col - 1
                            } else {
                                true
                            }
                        },
                        Some('P') => {
                            if self.copy_lines.len() > 0 && !self.has_copy_newline {
                                self.copy_lines[0].as_str().unicode_len() <= usize::MAX - col
                            } else {
                                true
                            }
                        },
                        Some('X') => {
                            let (frozen_row, frozen_col) = self.text_area.frozen_position();
                            !(col == 0 && !(row < frozen_row || (row == frozen_row && col
                                <= frozen_col)))
                        },
                        _ => true,
                    }
                },
                _ => true,
            },
            VimMode::CommandLine => match &self.text_input {
                Some(ti) => match key {
                    Key::Named(NamedKey::Enter) => {
                        let typed = ti.string();
                        typed.as_str().unicode_len() >= 1
                    },
                    Key::Character(c) => {
                        let (_, input_col) = ti.cursor_position();
                        c.as_str().unicode_len() <= usize::MAX - input_col
                    },
                    _ => true,
                },
                None => false,
            },
            VimMode::Insert => match key {
                Key::Named(NamedKey::Space) => col < usize::MAX,
                Key::Named(NamedKey::Enter) => self.scroll_safe_for(row + 1),
                Key::Character(c) => {
                    if self.is_ime_active {
                        return true;
                    }
                    if ctrl && chars_from_are(c.as_str(), 0, '[', None) {
                        assert(c@.skip(0) =~= c@);
                        return true;
                    }
                    assert(c@.skip(0) =~= c@);
                    c.as_str().unicode_len() <= usize::MAX - col
                },
                _ => true,
            },
            VimMode::Visual => true,
        }
    }

    /// `p` (`after`) or `P`.
    fn paste(&mut self, after: bool)
        requires
            old(self).wf(),
            old(self)@.copy_lines.len() > 0 && !old(self)@.has_copy_newline ==> old(self)@.text.col
                + (if after { 1int } else { 0 }) + old(self)@.copy_lines[0].len() <= usize::MAX,
        ensures
            final(self).wf(),
            final(self)@ == paste(old(self)@, after).0,
    {
        if self.copy_lines.len() > 0 {
            let (cursor_row, cursor_col) = self.text_area.cursor_position();
            if self.has_copy_newline {
                let line_count = self.text_area.line_count();
                assert(cursor_row < line_count);
                let at = if after { cursor_row + 1 } else { cursor_row };
                let lines = crate::undo::clone_strings(&self.copy_lines);
                let mut taken: Vec<String> = Vec::new();
                core::mem::swap(&mut taken, &mut self.copy_lines);
                self.text_area.insert_lines_at(at, taken);
                self.record(Command::InsertLines(InsertLinesCmd::new(at, 0, lines)));
                self.start_new_block();
                assert(self@.copy_lines =~= Seq::<Seq<char>>::empty());
            } else {
                let col = if after { cursor_col + 1 } else { cursor_col };
                self.text_area.insert_text_at(cursor_row, col, self.copy_lines[0].as_str());
            }
        }
    }
}


/// The editor after the texts `keys` are typed in turn, without Control.
pub open spec fn typed_keys(e: EditorView, keys: Seq<Seq<char>>) -> EditorView
    decreases keys.len(),
{
    if keys.len() == 0 {
        e
    } else {
        key_step(typed_keys(e, keys.drop_last()), KeyView::Character(keys.last()), false).0
    }
}

/// The texts of `keys` one after the other.
pub open spec fn joined_keys(keys: Seq<Seq<char>>) -> Seq<char>
    decreases keys.len(),
{
    if keys.len() == 0 {
        Seq::empty()
    } else {
        joined_keys(keys.drop_last()) + keys.last()
    }
}

/// In insert mode, typing texts from (`row`, `col`) inserts them all there and
/// builds a single insertion of all of them for undo.
proof fn lemma_typing_merges(e: EditorView, keys: Seq<Seq<char>>)
    requires
        e.mode == VimMode::Insert,
        !e.ime_active,
        0 <= e.text.row < e.text.lines.len(),
        0 <= e.text.col <= e.text.lines[e.text.row].len(),
        e.history.current_block.len() == 0,
    ensures
        ({
            let t = e.text;
            let e2 = typed_keys(e, keys);
            let all = joined_keys(keys);
            &&& e2.mode == VimMode::Insert
            &&& !e2.ime_active
            &&& e2.cmd_str == e.cmd_str
            &&& e2.text.lines == t.lines.update(t.row, insert_chars(t.lines[t.row], t.col, all))
            &&& e2.text.row == t.row
            &&& e2.text.col == t.col + all.len()
            &&& e2.history.undo_stack == e.history.undo_stack
            &&& (keys.len() > 0 ==> e2.history.current_block == seq![
                CommandView::InsertText { row: t.row, col: t.col, text: all },
            ])
        }),
    decreases keys.len(),
{
    let t = e.text;
    if keys.len() == 0 {
        assert(insert_chars(t.lines[t.row], t.col, Seq::<char>::empty()) =~= t.lines[t.row]);
        assert(t.lines.update(t.row, t.lines[t.row]) =~= t.lines);
    } else {
        let init = keys.drop_last();
        let k = keys.last();
        lemma_typing_merges(e, init);
        let before = joined_keys(init);
        lemma_insert_consecutive(t.lines[t.row], t.col, before, k);
        assert(joined_keys(keys) == before + k);
        let e1 = typed_keys(e, init);
        assert(e1.text.lines[t.row] == insert_chars(t.lines[t.row], t.col, before));
        assert(e1.text.lines.update(t.row, insert_chars(e1.text.lines[t.row], t.col + before.len(), k))
            =~= t.lines.update(t.row, insert_chars(t.lines[t.row], t.col, before + k)));
        if init.len() == 0 {
            assert(before =~= Seq::<char>::empty());
        }
    }
}

/// Typing in insert mode is undone by one `u`: from command mode with no
/// operator pending, `i`, then any texts typed (at least one key), then Escape,
/// then `u` give back the lines the editor had, when the cursor was within its
/// line.
pub proof fn law_typing_then_undo_restores(e: EditorView, keys: Seq<Seq<char>>)
    requires
        editor_ok(e),
        e.mode == VimMode::Command,
        e.cmd_str.len() == 0,
        !e.ime_active,
        e.text.col <= e.text.lines[e.text.row].len(),
        keys.len() > 0,
    ensures
        ({
            let e1 = key_step(e, KeyView::Character(seq!['i']), false).0;
            let e2 = typed_keys(e1, keys);
            let e3 = key_step(e2, KeyView::Named(NamedKey::Escape), false).0;
            let e4 = key_step(e3, KeyView::Character(seq!['u']), false).0;
            e4.text.lines == e.text.lines
        }),
{
    let t = e.text;
    let e1 = key_step(e, KeyView::Character(seq!['i']), false).0;
    assert(single(seq!['i']) == Some('i'));
    assert(e1 == EditorView { mode: VimMode::Insert, ..e });
    lemma_typing_merges(e1, keys);
    let all = joined_keys(keys);
    let e2 = typed_keys(e1, keys);
    let e3 = key_step(e2, KeyView::Named(NamedKey::Escape), false).0;
    assert(e3 == esc_insert(e2));
    let cmd = CommandView::InsertText { row: t.row, col: t.col, text: all };
    assert(e3.history.undo_stack == e.history.undo_stack.push(seq![cmd]));
    assert(e3.history.current_block.len() == 0);
    assert(e3.text.lines == e2.text.lines);
    assert(single(seq!['u']) == Some('u'));
    let e4 = key_step(e3, KeyView::Character(seq!['u']), false).0;
    assert(e3.mode == VimMode::Command && e3.cmd_str.len() == 0 && !e3.ime_active);
    let (h4, t4) = undo_result(e3.history, e3.text);
    assert(closed_block(e3.history) == e3.history);
    assert(e4.text == clamp1_result(t4));
    assert(seq![cmd].drop_last() =~= Seq::<CommandView>::empty());
    assert(revert_block(Seq::<CommandView>::empty(), reverted(cmd, e3.text)) == reverted(cmd, e3.text));
    assert(t4 == reverted(cmd, e3.text));
    lemma_delete_undoes_insert(t.lines[t.row], t.col, all);
    assert(t4.lines =~= t.lines);
}


/// `x` is undone by `u`: from command mode with no operator pending and a
/// character under the cursor, `x` then `u` give back the lines.
pub proof fn law_delete_char_then_undo_restores(e: EditorView)
    requires
        editor_ok(e),
        e.mode == VimMode::Command,
        e.cmd_str.len() == 0,
        !e.ime_active,
        e.text.col < e.text.lines[e.text.row].len(),
    ensures
        ({
            let e1 = key_step(e, KeyView::Character(seq!['x']), false).0;
            let e2 = key_step(e1, KeyView::Character(seq!['u']), false).0;
            e2.text.lines == e.text.lines
        }),
{
    let t = e.text;
    let x = t.lines[t.row].subrange(t.col, t.col + 1);
    let cmd = CommandView::DeleteText { row: t.row, col: t.col, text: x };
    assert(single(seq!['x']) == Some('x'));
    assert(single(seq!['u']) == Some('u'));
    let e1 = key_step(e, KeyView::Character(seq!['x']), false).0;
    assert(line_slice(t, t.row, t.col, 1) == Some(x));
    assert(e1.history.current_block.len() == 0);
    assert(e1.history.undo_stack == e.history.undo_stack.push(seq![cmd]));
    assert(e1.mode == VimMode::Command && e1.cmd_str.len() == 0 && !e1.ime_active);
    let e2 = key_step(e1, KeyView::Character(seq!['u']), false).0;
    let (h2, t2) = undo_result(e1.history, e1.text);
    assert(closed_block(e1.history) == e1.history);
    assert(e2.text == clamp1_result(t2));
    assert(seq![cmd].drop_last() =~= Seq::<CommandView>::empty());
    assert(revert_block(Seq::<CommandView>::empty(), reverted(cmd, e1.text)) == reverted(cmd, e1.text));
    assert(t2 == reverted(cmd, e1.text));
    lemma_insert_undoes_delete(t.lines[t.row], t.col, 1);
    assert(t2.lines =~= t.lines);
}

/// `dd` is undone by `u`: from command mode with no operator pending, `d`, `d`
/// (deleting the typed count of lines, one when none was typed, all of them
/// when the count reaches their number) then `u` give back the lines.
pub proof fn law_delete_lines_then_undo_restores(e: EditorView)
    requires
        editor_ok(e),
        e.mode == VimMode::Command,
        e.cmd_str.len() == 0,
        !e.ime_active,
    ensures
        ({
            let e1 = key_step(e, KeyView::Character(seq!['d']), false).0;
            let e2 = key_step(e1, KeyView::Character(seq!['d']), false).0;
            let e3 = key_step(e2, KeyView::Character(seq!['u']), false).0;
            e3.text.lines == e.text.lines
        }),
{
    let t = e.text;
    let l = t.lines;
    let r = t.row;
    let n = line_count_arg(e).0;
    assert(single(seq!['d']) == Some('d'));
    assert(single(seq!['u']) == Some('u'));
    let e1 = key_step(e, KeyView::Character(seq!['d']), false).0;
    assert(e1 == EditorView { cmd_str: seq!['d'], ..e });
    assert(e1.cmd_str + seq!['d'] =~= seq!['d', 'd']);
    let e2 = key_step(e1, KeyView::Character(seq!['d']), false).0;
    assert(line_count_arg(e1) == line_count_arg(e));
    let t2 = delete_lines_result(t, n);
    let cmd = deleted_lines_record(t, n);
    assert(e2.text == t2);
    assert(e2.history.current_block.len() == 0);
    assert(e2.history.undo_stack == e.history.undo_stack.push(seq![cmd]));
    assert(e2.mode == VimMode::Command && e2.cmd_str.len() == 0 && !e2.ime_active);
    let e3 = key_step(e2, KeyView::Character(seq!['u']), false).0;
    let (h3, t3) = undo_result(e2.history, e2.text);
    assert(closed_block(e2.history) == e2.history);
    assert(e3.text == clamp1_result(t3));
    assert(seq![cmd].drop_last() =~= Seq::<CommandView>::empty());
    assert(revert_block(Seq::<CommandView>::empty(), reverted(cmd, t2)) == reverted(cmd, t2));
    assert(t3 == reverted(cmd, t2));
    lemma_deleted_lines_reverted(t, n);
}

/// Pasting copied lines is undone by `u`: from command mode with no operator
/// pending and lines copied, `p` (`after`) or `P` then `u` give back the lines.
pub proof fn law_paste_lines_then_undo_restores(e: EditorView, after: bool)
    requires
        editor_ok(e),
        e.mode == VimMode::Command,
        e.cmd_str.len() == 0,
        !e.ime_active,
        e.copy_lines.len() > 0,
        e.has_copy_newline,
    ensures
        ({
            let key = if after { seq!['p'] } else { seq!['P'] };
            let e1 = key_step(e, KeyView::Character(key), false).0;
            let e2 = key_step(e1, KeyView::Character(seq!['u']), false).0;
            e2.text.lines == e.text.lines
        }),
{
    let t = e.text;
    let l = t.lines;
    let c = e.copy_lines;
    let key = if after { seq!['p'] } else { seq!['P'] };
    assert(single(key) == Some(if after { 'p' } else { 'P' }));
    assert(single(seq!['u']) == Some('u'));
    let at = if after { t.row + 1 } else { t.row };
    let e1 = key_step(e, KeyView::Character(key), false).0;
    assert(e1 == paste(e, after).0);
    let t1 = insert_lines_result(t, at, c);
    assert(t1.lines =~= l.take(at) + c + l.skip(at));
    let cmd = CommandView::InsertLines { row: at, col: 0, lines: c };
    assert(e1.text == t1);
    assert(e1.history.current_block.len() == 0);
    assert(e1.history.undo_stack == e.history.undo_stack.push(seq![cmd]));
    assert(e1.mode == VimMode::Command && e1.cmd_str.len() == 0 && !e1.ime_active);
    let e2 = key_step(e1, KeyView::Character(seq!['u']), false).0;
    let (h2, t2) = undo_result(e1.history, e1.text);
    assert(closed_block(e1.history) == e1.history);
    assert(e2.text == clamp1_result(t2));
    assert(seq![cmd].drop_last() =~= Seq::<CommandView>::empty());
    assert(revert_block(Seq::<CommandView>::empty(), reverted(cmd, t1)) == reverted(cmd, t1));
    assert(t2 == reverted(cmd, t1));
    let g = goto_result(t1, at, 0);
    assert(g.row == at);
    assert(t2 == delete_lines_result(g, c.len() as int));
    assert(t2.lines =~= l);
}


/// Opening a line is undone by `u`: from command mode with no operator
/// pending, `o` (`below`) or `O`, then Escape, then `u` give back the lines.
pub proof fn law_open_line_then_undo_restores(e: EditorView, below: bool)
    requires
        editor_ok(e),
        e.mode == VimMode::Command,
        e.cmd_str.len() == 0,
        !e.ime_active,
    ensures
        ({
            let key = if below { seq!['o'] } else { seq!['O'] };
            let e1 = key_step(e, KeyView::Character(key), false).0;
            let e2 = key_step(e1, KeyView::Named(NamedKey::Escape), false).0;
            let e3 = key_step(e2, KeyView::Character(seq!['u']), false).0;
            e3.text.lines == e.text.lines
        }),
{
    let t = e.text;
    let l = t.lines;
    let r = t.row;
    let key = if below { seq!['o'] } else { seq!['O'] };
    assert(single(key) == Some(if below { 'o' } else { 'O' }));
    assert(single(seq!['u']) == Some('u'));
    let e1 = key_step(e, KeyView::Character(key), false).0;
    let cmd = if below {
        CommandView::InsertNewline { row: r, col: l[r].len() as int }
    } else {
        CommandView::InsertNewline { row: r, col: 0 }
    };
    let t1 = if below { new_line_below_result(t) } else { new_line_above_result(t) };
    assert(e1.text == t1);
    assert(e1.mode == VimMode::Insert);
    assert(e1.history.current_block == seq![cmd]);
    let e2 = key_step(e1, KeyView::Named(NamedKey::Escape), false).0;
    assert(e2 == esc_insert(e1));
    assert(e2.history.current_block.len() == 0);
    assert(e2.history.undo_stack == e.history.undo_stack.push(seq![cmd]));
    assert(e2.mode == VimMode::Command && e2.cmd_str.len() == 0 && !e2.ime_active);
    assert(e2.text.lines == t1.lines);
    let e3 = key_step(e2, KeyView::Character(seq!['u']), false).0;
    let (h3, t3) = undo_result(e2.history, e2.text);
    assert(closed_block(e2.history) == e2.history);
    assert(e3.text == clamp1_result(t3));
    assert(seq![cmd].drop_last() =~= Seq::<CommandView>::empty());
    assert(revert_block(Seq::<CommandView>::empty(), reverted(cmd, e2.text)) == reverted(cmd, e2.text));
    assert(t3 == reverted(cmd, e2.text));
    if below {
        assert(l[r] + Seq::<char>::empty() =~= l[r]);
    } else {
        assert(Seq::<char>::empty() + l[r] =~= l[r]);
    }
    assert(t3.lines =~= l);
}


/// The gutter, read from its top: the first row on screen, `from`, carries the
/// number `from + 1`, and the rows below it follow in order; nothing is shown
/// for an empty range.
pub proof fn law_line_numbers_count_from_the_first_row(from: int, to: int, width: int)
    requires
        from <= to,
    ensures
        line_numbers(from, from, width) == Seq::<char>::empty(),
        from < to ==> line_numbers(from, to, width) == seq![' '] + pad_left(
            decimal((from + 1) as nat),
            width,
        ) + seq![' ', '\n'] + line_numbers(from + 1, to, width),
    decreases to - from,
{
    if from + 1 < to {
        law_line_numbers_count_from_the_first_row(from, to - 1, width);
        let head = seq![' '] + pad_left(decimal((from + 1) as nat), width) + seq![' ', '\n'];
        let last = seq![' '] + pad_left(decimal(to as nat), width) + seq![' ', '\n'];
        assert(line_numbers(from + 1, to, width) == line_numbers(from + 1, to - 1, width) + last);
        assert(line_numbers(from, to, width) == line_numbers(from, to - 1, width) + last);
        assert(line_numbers(from, to, width) =~= head + line_numbers(from + 1, to, width));
    } else if from + 1 == to {
        assert(line_numbers(from + 1, to, width) =~= Seq::<char>::empty());
        assert(line_numbers(from, to - 1, width) =~= Seq::<char>::empty());
        assert(line_numbers(from, to, width) =~= seq![' '] + pad_left(
            decimal((from + 1) as nat),
            width,
        ) + seq![' ', '\n'] + line_numbers(from + 1, to, width));
    }
}

/// The count typed before `dd`, `yy` and `Y`: one when none was typed or it
/// does not parse.
pub open spec fn typed_line_count(num_str: Seq<char>) -> int {
    if num_str.len() == 0 {
        1
    } else {
        match parsed_usize(num_str) {
            Some(v) => v as int,
            None => 1,
        }
    }
}

/// `dd` with a count `n` removes the `n` lines from the cursor line on (those
/// that exist), or every line when `n` reaches their number, and the copy that
/// `p` and `P` paste is exactly the lines removed from the cursor line on.
pub proof fn law_delete_lines_copies_what_it_removes(e: EditorView)
    requires
        editor_ok(e),
        e.mode == VimMode::Command,
        e.cmd_str.len() == 0,
        !e.ime_active,
    ensures
        ({
            let l = e.text.lines;
            let r = e.text.row;
            let n = typed_line_count(e.num_str);
            let k = min(n, l.len() - r);
            let e1 = key_step(e, KeyView::Character(seq!['d']), false).0;
            let e2 = key_step(e1, KeyView::Character(seq!['d']), false).0;
            &&& e2.copy_lines == l.subrange(r, r + k)
            &&& e2.has_copy_newline
            &&& e2.text.lines == if n >= l.len() {
                seq![Seq::<char>::empty()]
            } else {
                l.take(r) + l.skip(r + k)
            }
            &&& e2.num_str.len() == 0
            &&& e2.cmd_str.len() == 0
            &&& e2.mode == VimMode::Command
        }),
{
    let t = e.text;
    let l = t.lines;
    let r = t.row;
    let n = typed_line_count(e.num_str);
    assert(n >= 0);
    assert(line_count_arg(e).0 == n);
    assert(single(seq!['d']) == Some('d'));
    let e1 = key_step(e, KeyView::Character(seq!['d']), false).0;
    assert(e1 == EditorView { cmd_str: seq!['d'], ..e });
    assert(e1.cmd_str + seq!['d'] =~= seq!['d', 'd']);
    assert(line_count_arg(e1) == line_count_arg(e));
    let k = min(n, l.len() - r);
    assert(lines_from(t, r, n) =~= l.subrange(r, r + k));
    let t2 = delete_lines_result(t, n);
    if n >= l.len() {
        assert(t2.lines =~= seq![Seq::<char>::empty()]);
    } else {
        assert(t2.lines =~= l.take(r) + l.skip(r + k));
    }
}

/// `P` puts the copied lines above the cursor line and `p` below it; the copy
/// is then used up.
pub proof fn law_paste_lines_above_or_below(e: EditorView, after: bool)
    requires
        editor_ok(e),
        e.mode == VimMode::Command,
        e.cmd_str.len() == 0,
        !e.ime_active,
        e.copy_lines.len() > 0,
        e.has_copy_newline,
    ensures
        ({
            let l = e.text.lines;
            let r = e.text.row;
            let c = e.copy_lines;
            let key = if after { seq!['p'] } else { seq!['P'] };
            let e1 = key_step(e, KeyView::Character(key), false).0;
            &&& after ==> e1.text.lines == l.take(r + 1) + c + l.skip(r + 1)
            &&& !after ==> e1.text.lines == l.take(r) + c + l.skip(r)
            &&& e1.copy_lines.len() == 0
            &&& e1.text.row == r
        }),
{
    let key = if after { seq!['p'] } else { seq!['P'] };
    assert(single(key) == Some(if after { 'p' } else { 'P' }));
    let e1 = key_step(e, KeyView::Character(key), false).0;
    assert(e1 == paste(e, after).0);
}

/// `H` moves the cursor to the first line shown on screen (the last line when
/// the buffer is shorter), keeping the lines and the scroll position.
pub proof fn law_h_goes_to_the_top_of_the_screen(e: EditorView)
    requires
        editor_ok(e),
        e.mode == VimMode::Command,
        e.cmd_str.len() == 0,
        !e.ime_active,
    ensures
        ({
            let e1 = key_step(e, KeyView::Character(seq!['H']), false).0;
            &&& e1.text.row == min(e.scroll_row, e.text.lines.len() - 1)
            &&& e1.scroll_row == e.scroll_row
            &&& e1.text.lines == e.text.lines
            &&& e1.mode == VimMode::Command
        }),
{
    assert(single(seq!['H']) == Some('H'));
}

/// Backspace on the `:` line removes the character before its cursor; the line
/// stays open, in command-line mode, while it holds text, and closes back to
/// command mode once it is empty.
pub proof fn law_command_line_backspace(e: EditorView, line: Seq<char>, col: int)
    requires
        e.mode == VimMode::CommandLine,
        e.input == Some(TextAreaView {
            lines: seq![line],
            row: 0,
            col,
            preferred_col: e.input->Some_0.preferred_col,
            frozen: (0int, 0int),
        }),
        1 <= col <= line.len(),
    ensures
        ({
            let e1 = key_step(e, KeyView::Named(NamedKey::Backspace), false).0;
            let rest = line.take(col - 1) + line.skip(col);
            &&& line.len() > 1 ==> e1.mode == VimMode::CommandLine && e1.input == Some(
                TextAreaView {
                    lines: seq![rest],
                    row: 0,
                    col: col - 1,
                    preferred_col: col - 1,
                    frozen: (0int, 0int),
                },
            )
            &&& line.len() == 1 ==> e1.mode == VimMode::Command && e1.input is None
            &&& e1.text == e.text
        }),
{
    let ti = e.input->Some_0;
    let rest = line.take(col - 1) + line.skip(col);
    assert(prefix(line, col - 1) =~= line.take(col - 1));
    assert(prefix(line, col) =~= line.take(col));
    assert(delete_chars(line, col - 1, 1) =~= rest);
    let t2 = delete_before_result(ti, true);
    assert(t2.lines =~= seq![rest]);
    assert(rest.len() == line.len() - 1);
}

} // verus!
