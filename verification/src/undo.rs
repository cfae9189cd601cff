//! Edits recorded for undo: each knows how to redo and revert itself on a
//! buffer, consecutive small edits merge, and edits are grouped into blocks
//! that are undone as a whole.

use vstd::prelude::*;
use crate::text::string_views;
use crate::textarea::{
    delete_lines_result, delete_text_result, goto_result, insert_lines_result, insert_text_result, lemma_delete_undoes_insert,
    lemma_insert_consecutive, lemma_insert_undoes_delete, lemma_merge_undoes_split,
    lemma_split_undoes_merge, merge_result, newline_result, TextArea,
    TextAreaView,
};

verus! {

/// What an edit command is, as plain values.
pub enum CommandView {
    InsertText { row: int, col: int, text: Seq<char> },
    InsertNewline { row: int, col: int },
    DeleteNewline { row: int, col: int },
    DeleteText { row: int, col: int, text: Seq<char> },
    DeleteText1 { row: int, col: int, text: Seq<char> },
    InsertLines { row: int, col: int, lines: Seq<Seq<char>> },
    DeleteLines { row: int, col: int, lines: Seq<Seq<char>>, emptied: bool },
}

/// Whether the positions a command works on stay within `usize`.
pub open spec fn well_formed(c: CommandView) -> bool {
    match c {
        CommandView::InsertText { row, col, text } => 0 <= row <= usize::MAX && 0 <= col
            && col + text.len() <= usize::MAX,
        CommandView::InsertNewline { row, col } => 0 <= row <= usize::MAX && 0 <= col
            <= usize::MAX,
        CommandView::DeleteNewline { row, col } => 0 <= row <= usize::MAX && 0 <= col
            <= usize::MAX,
        CommandView::DeleteText { row, col, text } => 0 <= row <= usize::MAX && 0 <= col
            && col + text.len() <= usize::MAX,
        CommandView::DeleteText1 { row, col, text } => 0 <= row <= usize::MAX && 0 <= col
            && col + text.len() <= usize::MAX,
        CommandView::InsertLines { row, col, lines } => 0 <= row <= usize::MAX && 0 <= col
            <= usize::MAX && lines.len() <= usize::MAX,
        CommandView::DeleteLines { row, col, lines, emptied } => 0 <= row && 0 <= col
            <= usize::MAX && row + lines.len() <= usize::MAX,
    }
}

/// The state after removing `n` lines from line `row` on, by moving the cursor
/// there and deleting lines at the cursor.
pub open spec fn remove_lines_result(v: TextAreaView, row: int, n: int) -> TextAreaView {
    delete_lines_result(goto_result(v, row, 0), n)
}

/// The buffer state after (re)doing the command.
pub open spec fn applied(c: CommandView, v: TextAreaView) -> TextAreaView {
    match c {
        CommandView::InsertText { row, col, text } => insert_text_result(v, row, col, text),
        CommandView::InsertNewline { row, col } => newline_result(v, row, col),
        CommandView::DeleteNewline { row, col } => merge_result(v, row),
        CommandView::DeleteText { row, col, text } => delete_text_result(
            v,
            row,
            col,
            text.len() as int,
        ),
        CommandView::DeleteText1 { row, col, text } => delete_text_result(
            v,
            row,
            col,
            text.len() as int,
        ),
        CommandView::InsertLines { row, col, lines } => insert_lines_result(v, row, lines),
        CommandView::DeleteLines { row, col, lines, emptied } => remove_lines_result(
            v,
            row,
            lines.len() as int,
        ),
    }
}

/// The buffer state after undoing the command.
pub open spec fn reverted(c: CommandView, v: TextAreaView) -> TextAreaView {
    match c {
        CommandView::InsertText { row, col, text } => delete_text_result(
            v,
            row,
            col,
            text.len() as int,
        ),
        CommandView::InsertNewline { row, col } => merge_result(v, row),
        CommandView::DeleteNewline { row, col } => newline_result(v, row, col),
        CommandView::DeleteText { row, col, text } => goto_result(
            insert_text_result(v, row, col, text),
            row,
            col,
        ),
        CommandView::DeleteText1 { row, col, text } => goto_result(
            insert_text_result(v, row, col, text),
            row,
            col,
        ),
        CommandView::InsertLines { row, col, lines } => remove_lines_result(
            v,
            row,
            lines.len() as int,
        ),
        CommandView::DeleteLines { row, col, lines, emptied } => if emptied {
            delete_lines_result(
                goto_result(insert_lines_result(v, row, lines), row + lines.len(), 0),
                1,
            )
        } else {
            insert_lines_result(v, row, lines)
        },
    }
}

/// The command that `c` becomes when `other` is merged into it, if they merge:
/// text typed right after an insertion joins it; with backspace-style deletes,
/// a deletion right after or right before a deletion joins it.
pub open spec fn merged(c: CommandView, other: CommandView) -> Option<CommandView> {
    match (c, other) {
        (
            CommandView::InsertText { row, col, text },
            CommandView::InsertText { row: row2, col: col2, text: text2 },
        ) => if row == row2 && col + text.len() == col2 {
            Some(CommandView::InsertText { row, col, text: text + text2 })
        } else {
            None
        },
        (
            CommandView::DeleteText1 { row, col, text },
            CommandView::DeleteText1 { row: row2, col: col2, text: text2 },
        ) => if row == row2 && col + text.len() == col2 {
            Some(CommandView::DeleteText1 { row, col, text: text + text2 })
        } else if row == row2 && col == col2 + text2.len() {
            Some(CommandView::DeleteText1 { row, col: col2, text: text2 + text })
        } else {
            None
        },
        _ => None,
    }
}

/// An edit of the buffer that can be done again and undone.
pub trait EditCommand {
    spec fn as_command(&self) -> CommandView;

    /// Does the edit on `text_area`.
    fn execute(&mut self, text_area: &mut TextArea)
        requires
            well_formed(old(self).as_command()),
            old(text_area).wf(),
        ensures
            final(self).as_command() == old(self).as_command(),
            final(text_area).wf(),
            final(text_area)@ == applied(old(self).as_command(), old(text_area)@),
    ;

    /// Reverts the edit on `text_area`.
    fn undo(&mut self, text_area: &mut TextArea)
        requires
            well_formed(old(self).as_command()),
            old(text_area).wf(),
        ensures
            final(self).as_command() == old(self).as_command(),
            final(text_area).wf(),
            final(text_area)@ == reverted(old(self).as_command(), old(text_area)@),
    ;

    /// Absorbs `other` into this command when the two merge; says whether they did.
    fn try_merge(&mut self, other: &Command) -> (merged_in: bool)
        requires
            well_formed(old(self).as_command()),
            well_formed(other@),
        ensures
            merged_in == merged(old(self).as_command(), other@) is Some,
            merged_in ==> final(self).as_command() == merged(
                old(self).as_command(),
                other@,
            )->Some_0,
            !merged_in ==> final(self).as_command() == old(self).as_command(),
            well_formed(final(self).as_command()),
    ;
}

/// Text typed at a position.
pub struct InsertTextCmd {
    row: usize,
    col: usize,
    text: String,
}

/// A line broken in two.
pub struct InsertNewlineCmd {
    row: usize,
    col: usize,
}

/// A line joined with the next one.
pub struct DeleteNewlineCmd {
    row: usize,
    col: usize,
}

/// Text deleted in command mode.
pub struct DeleteTextCmd {
    row: usize,
    col: usize,
    text: String,
}

/// Text deleted in insert mode; consecutive such deletions merge.
pub struct DeleteText1Cmd {
    row: usize,
    col: usize,
    text: String,
}

/// Lines pasted before a line.
pub struct InsertLinesCmd {
    row: usize,
    col: usize,
    lines: Vec<String>,
}

/// Lines deleted from a line on; `emptied` when they were all the lines, so
/// that the buffer was left with one empty line in their place.
pub struct DeleteLinesCmd {
    row: usize,
    col: usize,
    lines: Vec<String>,
    emptied: bool,
}

/// Any of the edit commands.
pub enum Command {
    InsertText(InsertTextCmd),
    InsertNewline(InsertNewlineCmd),
    DeleteNewline(DeleteNewlineCmd),
    DeleteText(DeleteTextCmd),
    DeleteText1(DeleteText1Cmd),
    InsertLines(InsertLinesCmd),
    DeleteLines(DeleteLinesCmd),
}

impl View for Command {
    type V = CommandView;

    open spec fn view(&self) -> CommandView {
        match self {
            Command::InsertText(c) => c@,
            Command::InsertNewline(c) => c@,
            Command::DeleteNewline(c) => c@,
            Command::DeleteText(c) => c@,
            Command::DeleteText1(c) => c@,
            Command::InsertLines(c) => c@,
            Command::DeleteLines(c) => c@,
        }
    }
}

impl InsertTextCmd {
    pub fn new(row: usize, col: usize, text: String) -> (cmd: Self)
        ensures
            cmd@ == (CommandView::InsertText {
                row: row as int,
                col: col as int,
                text: text@,
            }),
    {
        InsertTextCmd { row, col, text }
    }
}

impl View for InsertTextCmd {
    type V = CommandView;

    closed spec fn view(&self) -> CommandView {
        CommandView::InsertText { row: self.row as int, col: self.col as int, text: self.text@ }
    }
}

impl EditCommand for InsertTextCmd {
    open spec fn as_command(&self) -> CommandView {
        self@
    }

    fn execute(&mut self, text_area: &mut TextArea) {
        text_area.insert_text_at(self.row, self.col, self.text.as_str());
    }

    fn undo(&mut self, text_area: &mut TextArea) {
        let n = self.text.as_str().unicode_len();
        text_area.delete_chars_at(self.row, self.col, n);
    }

    fn try_merge(&mut self, other: &Command) -> (merged_in: bool) {
        if let Command::InsertText(other) = other {
            let n = self.text.as_str().unicode_len();
            if self.row == other.row && n <= usize::MAX - self.col && self.col + n == other.col {
                self.text.append(other.text.as_str());
                return true;
            }
        }
        false
    }
}

impl InsertNewlineCmd {
    pub fn new(row: usize, col: usize) -> (cmd: Self)
        ensures
            cmd@ == (CommandView::InsertNewline { row: row as int, col: col as int }),
    {
        InsertNewlineCmd { row, col }
    }
}

impl View for InsertNewlineCmd {
    type V = CommandView;

    closed spec fn view(&self) -> CommandView {
        CommandView::InsertNewline { row: self.row as int, col: self.col as int }
    }
}

impl EditCommand for InsertNewlineCmd {
    open spec fn as_command(&self) -> CommandView {
        self@
    }

    fn execute(&mut self, text_area: &mut TextArea) {
        text_area.insert_newline_at(self.row, self.col);
    }

    fn undo(&mut self, text_area: &mut TextArea) {
        text_area.merge_lines_at(self.row);
    }

    fn try_merge(&mut self, _other: &Command) -> (merged_in: bool) {
        false
    }
}

impl DeleteNewlineCmd {
    pub fn new(row: usize, col: usize) -> (cmd: Self)
        ensures
            cmd@ == (CommandView::DeleteNewline { row: row as int, col: col as int }),
    {
        DeleteNewlineCmd { row, col }
    }
}

impl View for DeleteNewlineCmd {
    type V = CommandView;

    closed spec fn view(&self) -> CommandView {
        CommandView::DeleteNewline { row: self.row as int, col: self.col as int }
    }
}

impl EditCommand for DeleteNewlineCmd {
    open spec fn as_command(&self) -> CommandView {
        self@
    }

    fn execute(&mut self, text_area: &mut TextArea) {
        text_area.merge_lines_at(self.row);
    }

    fn undo(&mut self, text_area: &mut TextArea) {
        text_area.insert_newline_at(self.row, self.col);
    }

    fn try_merge(&mut self, _other: &Command) -> (merged_in: bool) {
        false
    }
}

impl DeleteTextCmd {
    pub fn new(row: usize, col: usize, text: String) -> (cmd: Self)
        ensures
            cmd@ == (CommandView::DeleteText {
                row: row as int,
                col: col as int,
                text: text@,
            }),
    {
        DeleteTextCmd { row, col, text }
    }
}

impl View for DeleteTextCmd {
    type V = CommandView;

    closed spec fn view(&self) -> CommandView {
        CommandView::DeleteText { row: self.row as int, col: self.col as int, text: self.text@ }
    }
}

impl EditCommand for DeleteTextCmd {
    open spec fn as_command(&self) -> CommandView {
        self@
    }

    fn execute(&mut self, text_area: &mut TextArea) {
        let n = self.text.as_str().unicode_len();
        text_area.delete_chars_at(self.row, self.col, n);
    }

    fn undo(&mut self, text_area: &mut TextArea) {
        text_area.insert_text_at(self.row, self.col, self.text.as_str());
        text_area.goto_cursor(self.row, self.col);
    }

    fn try_merge(&mut self, _other: &Command) -> (merged_in: bool) {
        false
    }
}

impl DeleteText1Cmd {
    pub fn new(row: usize, col: usize, text: String) -> (cmd: Self)
        ensures
            cmd@ == (CommandView::DeleteText1 {
                row: row as int,
                col: col as int,
                text: text@,
            }),
    {
        DeleteText1Cmd { row, col, text }
    }
}

impl View for DeleteText1Cmd {
    type V = CommandView;

    closed spec fn view(&self) -> CommandView {
        CommandView::DeleteText1 { row: self.row as int, col: self.col as int, text: self.text@ }
    }
}

impl EditCommand for DeleteText1Cmd {
    open spec fn as_command(&self) -> CommandView {
        self@
    }

    fn execute(&mut self, text_area: &mut TextArea) {
        let n = self.text.as_str().unicode_len();
        text_area.delete_chars_at(self.row, self.col, n);
    }

    fn undo(&mut self, text_area: &mut TextArea) {
        text_area.insert_text_at(self.row, self.col, self.text.as_str());
        text_area.goto_cursor(self.row, self.col);
    }

    fn try_merge(&mut self, other: &Command) -> (merged_in: bool) {
        if let Command::DeleteText1(other) = other {
            let n = self.text.as_str().unicode_len();
            let m = other.text.as_str().unicode_len();
            if self.row == other.row && n <= usize::MAX - self.col && self.col + n == other.col {
                self.text.append(other.text.as_str());
                return true;
            }
            if self.row == other.row && m <= usize::MAX - other.col && self.col == other.col + m {
                let mut text = other.text.clone();
                text.append(self.text.as_str());
                self.text = text;
                self.col = other.col;
                return true;
            }
        }
        false
    }
}

/// Copies of the strings.
pub fn clone_strings(v: &Vec<String>) -> (c: Vec<String>)
    ensures
        string_views(c@) == string_views(v@),
{
    let mut c: Vec<String> = Vec::new();
    let mut i: usize = 0;
    while i < v.len()
        invariant
            i <= v@.len(),
            string_views(c@) =~= string_views(v@).take(i as int),
        decreases v@.len() - i,
    {
        let ghost prev = string_views(c@);
        c.push(v[i].clone());
        assert(string_views(c@) =~= prev.push(v@[i as int]@));
        assert(string_views(v@).take(i + 1) =~= string_views(v@).take(i as int).push(
            v@[i as int]@,
        ));
        i = i + 1;
    }
    assert(string_views(v@).take(v@.len() as int) =~= string_views(v@));
    c
}

impl InsertLinesCmd {
    pub fn new(row: usize, col: usize, lines: Vec<String>) -> (cmd: Self)
        ensures
            cmd@ == (CommandView::InsertLines {
                row: row as int,
                col: col as int,
                lines: string_views(lines@),
            }),
    {
        InsertLinesCmd { row, col, lines }
    }
}

impl View for InsertLinesCmd {
    type V = CommandView;

    closed spec fn view(&self) -> CommandView {
        CommandView::InsertLines {
            row: self.row as int,
            col: self.col as int,
            lines: string_views(self.lines@),
        }
    }
}

impl EditCommand for InsertLinesCmd {
    open spec fn as_command(&self) -> CommandView {
        self@
    }

    fn execute(&mut self, text_area: &mut TextArea) {
        text_area.insert_lines_at(self.row, clone_strings(&self.lines));
    }

    fn undo(&mut self, text_area: &mut TextArea) {
        text_area.goto_cursor(self.row, 0);
        text_area.delete_lines_at_cursor(self.lines.len());
    }

    fn try_merge(&mut self, _other: &Command) -> (merged_in: bool) {
        false
    }
}

impl DeleteLinesCmd {
    pub fn new(row: usize, col: usize, lines: Vec<String>, emptied: bool) -> (cmd: Self)
        ensures
            cmd@ == (CommandView::DeleteLines {
                row: row as int,
                col: col as int,
                lines: string_views(lines@),
                emptied,
            }),
    {
        DeleteLinesCmd { row, col, lines, emptied }
    }
}

impl View for DeleteLinesCmd {
    type V = CommandView;

    closed spec fn view(&self) -> CommandView {
        CommandView::DeleteLines {
            row: self.row as int,
            col: self.col as int,
            lines: string_views(self.lines@),
            emptied: self.emptied,
        }
    }
}

impl EditCommand for DeleteLinesCmd {
    open spec fn as_command(&self) -> CommandView {
        self@
    }

    fn execute(&mut self, text_area: &mut TextArea) {
        text_area.goto_cursor(self.row, 0);
        text_area.delete_lines_at_cursor(self.lines.len());
    }

    fn undo(&mut self, text_area: &mut TextArea) {
        text_area.insert_lines_at(self.row, clone_strings(&self.lines));
        if self.emptied {
            text_area.goto_cursor(self.row + self.lines.len(), 0);
            text_area.delete_lines_at_cursor(1);
        }
    }

    fn try_merge(&mut self, _other: &Command) -> (merged_in: bool) {
        false
    }
}

impl EditCommand for Command {
    open spec fn as_command(&self) -> CommandView {
        self@
    }

    fn execute(&mut self, text_area: &mut TextArea) {
        match self {
            Command::InsertText(c) => c.execute(text_area),
            Command::InsertNewline(c) => c.execute(text_area),
            Command::DeleteNewline(c) => c.execute(text_area),
            Command::DeleteText(c) => c.execute(text_area),
            Command::DeleteText1(c) => c.execute(text_area),
            Command::InsertLines(c) => c.execute(text_area),
            Command::DeleteLines(c) => c.execute(text_area),
        }
    }

    fn undo(&mut self, text_area: &mut TextArea) {
        match self {
            Command::InsertText(c) => c.undo(text_area),
            Command::InsertNewline(c) => c.undo(text_area),
            Command::DeleteNewline(c) => c.undo(text_area),
            Command::DeleteText(c) => c.undo(text_area),
            Command::DeleteText1(c) => c.undo(text_area),
            Command::InsertLines(c) => c.undo(text_area),
            Command::DeleteLines(c) => c.undo(text_area),
        }
    }

    fn try_merge(&mut self, other: &Command) -> (merged_in: bool) {
        match self {
            Command::InsertText(c) => c.try_merge(other),
            Command::InsertNewline(c) => c.try_merge(other),
            Command::DeleteNewline(c) => c.try_merge(other),
            Command::DeleteText(c) => c.try_merge(other),
            Command::DeleteText1(c) => c.try_merge(other),
            Command::InsertLines(c) => c.try_merge(other),
            Command::DeleteLines(c) => c.try_merge(other),
        }
    }
}

/// The commands of a block as plain values.
pub open spec fn block_view(block: Seq<Command>) -> Seq<CommandView> {
    block.map_values(|c: Command| c@)
}

/// The blocks of a stack as plain values.
pub open spec fn stack_view(stack: Seq<Vec<Command>>) -> Seq<Seq<CommandView>> {
    stack.map_values(|b: Vec<Command>| block_view(b@))
}

/// Whether every command of the block is well formed.
pub open spec fn block_well_formed(block: Seq<CommandView>) -> bool {
    forall|i: int| 0 <= i < block.len() ==> well_formed(#[trigger] block[i])
}

/// Whether every block of the stack is well formed.
pub open spec fn stack_well_formed(stack: Seq<Seq<CommandView>>) -> bool {
    forall|i: int| 0 <= i < stack.len() ==> block_well_formed(#[trigger] stack[i])
}

/// The buffer state after undoing the commands of `block`, last one first.
pub open spec fn revert_block(block: Seq<CommandView>, v: TextAreaView) -> TextAreaView
    decreases block.len(),
{
    if block.len() == 0 {
        v
    } else {
        revert_block(block.drop_last(), reverted(block.last(), v))
    }
}

/// The buffer state after doing the commands of `block`, first one first.
pub open spec fn apply_block(block: Seq<CommandView>, v: TextAreaView) -> TextAreaView
    decreases block.len(),
{
    if block.len() == 0 {
        v
    } else {
        applied(block.last(), apply_block(block.drop_last(), v))
    }
}

/// The block being built after `cmd` is recorded into it.
pub open spec fn record_into(block: Seq<CommandView>, cmd: CommandView) -> Seq<CommandView> {
    if block.len() == 0 {
        seq![cmd]
    } else if merged(block.last(), cmd) is Some {
        block.update(block.len() - 1, merged(block.last(), cmd)->Some_0)
    } else {
        block.push(cmd)
    }
}

/// The history as plain values: the blocks that can be undone (the last one
/// first), those undone, and the block being built.
pub struct UndoHistoryView {
    pub undo_stack: Seq<Seq<CommandView>>,
    pub redo_stack: Seq<Seq<CommandView>>,
    pub current_block: Seq<CommandView>,
}

/// The history after the block being built, if not empty, becomes the latest
/// block to undo; a new edit forgets what was undone.
pub open spec fn closed_block(h: UndoHistoryView) -> UndoHistoryView {
    if h.current_block.len() > 0 {
        UndoHistoryView {
            undo_stack: h.undo_stack.push(h.current_block),
            redo_stack: Seq::empty(),
            current_block: Seq::empty(),
        }
    } else {
        h
    }
}

/// The history and buffer after `u`: the block being built is ended, then the
/// latest block, if any, is reverted (its commands last one first) and kept
/// for redoing.
pub open spec fn undo_result(h0: UndoHistoryView, v: TextAreaView) -> (UndoHistoryView, TextAreaView) {
    let h = closed_block(h0);
    if h.undo_stack.len() == 0 {
        (h, v)
    } else {
        (
            UndoHistoryView {
                undo_stack: h.undo_stack.drop_last(),
                redo_stack: h.redo_stack.push(h.undo_stack.last()),
                current_block: Seq::empty(),
            },
            revert_block(h.undo_stack.last(), v),
        )
    }
}

/// The history after `cmd` is recorded into the block being built.
pub open spec fn recorded(h: UndoHistoryView, cmd: CommandView) -> UndoHistoryView {
    UndoHistoryView { current_block: record_into(h.current_block, cmd), ..h }
}

/// The undo history of a buffer: blocks of edits, undone a block at a time.
pub struct UndoHistory {
    undo_stack: Vec<Vec<Command>>,
    redo_stack: Vec<Vec<Command>>,
    current_block: Vec<Command>,
}

impl View for UndoHistory {
    type V = UndoHistoryView;

    closed spec fn view(&self) -> UndoHistoryView {
        UndoHistoryView {
            undo_stack: stack_view(self.undo_stack@),
            redo_stack: stack_view(self.redo_stack@),
            current_block: block_view(self.current_block@),
        }
    }
}

impl UndoHistory {
    /// Every recorded command is well formed.
    pub open spec fn wf(&self) -> bool {
        &&& stack_well_formed(self@.undo_stack)
        &&& stack_well_formed(self@.redo_stack)
        &&& block_well_formed(self@.current_block)
    }

    /// An empty history.
    pub fn new() -> (h: Self)
        ensures
            h.wf(),
            h@ == (UndoHistoryView {
                undo_stack: Seq::empty(),
                redo_stack: Seq::empty(),
                current_block: Seq::empty(),
            }),
    {
        let h = Self { undo_stack: Vec::new(), redo_stack: Vec::new(), current_block: Vec::new() };
        assert(h@.undo_stack =~= Seq::empty());
        assert(h@.redo_stack =~= Seq::empty());
        assert(h@.current_block =~= Seq::empty());
        h
    }

    /// Ends the block being built (when it holds anything): it becomes the next
    /// block to undo, and what was undone can no longer be redone.
    pub fn start_new_block(&mut self)
        requires
            old(self).wf(),
        ensures
            final(self).wf(),
            final(self)@ == closed_block(old(self)@),
    {
        if self.current_block.len() > 0 {
            let mut block: Vec<Command> = Vec::new();
            core::mem::swap(&mut block, &mut self.current_block);
            let ghost b = block_view(block@);
            self.undo_stack.push(block);
            self.redo_stack.clear();
            assert(self@.undo_stack =~= old(self)@.undo_stack.push(b));
            assert(self@.redo_stack =~= Seq::empty());
            assert(self@.current_block =~= Seq::empty());
        }
    }

    /// Adds `cmd` to the block being built, merged into its last command when
    /// the two merge.
    pub fn record(&mut self, cmd: Command)
        requires
            old(self).wf(),
            well_formed(cmd@),
        ensures
            final(self).wf(),
            final(self)@ == recorded(old(self)@, cmd@),
    {
        let ghost before = self@.current_block;
        if self.current_block.len() == 0 {
            self.current_block.push(cmd);
            assert(self@.current_block =~= seq![cmd@]);
        } else {
            let last = self.current_block.len() - 1;
            assert(well_formed(self.current_block@[last as int]@));
            let merged_in = self.current_block[last].try_merge(&cmd);
            if !merged_in {
                self.current_block.push(cmd);
                assert(self@.current_block =~= before.push(cmd@));
            } else {
                assert(self@.current_block =~= before.update(
                    last as int,
                    merged(before.last(), cmd@)->Some_0,
                ));
            }
        }
    }

    /// The `u` command: ends the block being built, then reverts the latest
    /// block, its commands last one first, and keeps it for redoing.
    pub fn undo(&mut self, text_area: &mut TextArea)
        requires
            old(self).wf(),
            old(text_area).wf(),
        ensures
            final(self).wf(),
            final(text_area).wf(),
            (final(self)@, final(text_area)@) == undo_result(old(self)@, old(text_area)@),
    {
        self.start_new_block();
        let ghost h = self@;
        if self.undo_stack.len() > 0 {
            let mut block = self.undo_stack.pop().unwrap();
            let ghost b = block_view(block@);
            assert(b == h.undo_stack.last());
            assert(block_well_formed(b));
            let mut i = block.len();
            assert(b.take(i as int) =~= b);
            while i > 0
                invariant
                    i <= block@.len(),
                    block_view(block@) == b,
                    block_well_formed(b),
                    text_area.wf(),
                    revert_block(b, old(text_area)@) == revert_block(b.take(i as int), text_area@),
                decreases i,
            {
                let ghost pre = text_area@;
                assert(block@[i - 1]@ == b[i - 1]);
                block[i - 1].undo(text_area);
                proof {
                    assert(b.take(i as int).drop_last() =~= b.take(i - 1));
                    assert(b.take(i as int).last() == b[i - 1]);
                }
                assert(block_view(block@) =~= b);
                i = i - 1;
            }
            assert(b.take(0) =~= Seq::<CommandView>::empty());
            self.redo_stack.push(block);
            assert(self@.undo_stack =~= h.undo_stack.drop_last());
            assert(self@.redo_stack =~= h.redo_stack.push(b));
            assert(self@.current_block =~= Seq::empty());
        }
    }
}

/// Whether undoing `c` right after doing it from state `v` is meant to give the
/// lines of `v` back: the command's position exists in `v` and, for a deletion,
/// the command holds the text that is there.
pub open spec fn undoable(c: CommandView, v: TextAreaView) -> bool {
    match c {
        CommandView::InsertText { row, col, text } => 0 <= row < v.lines.len() && 0 <= col
            <= v.lines[row].len(),
        CommandView::InsertNewline { row, col } => 0 <= row < v.lines.len() && 0 <= col,
        CommandView::DeleteNewline { row, col } => 0 <= row && row + 1 < v.lines.len() && col
            == v.lines[row].len(),
        CommandView::DeleteText { row, col, text } => deletes_text(v, row, col, text),
        CommandView::DeleteText1 { row, col, text } => deletes_text(v, row, col, text),
        CommandView::InsertLines { row, col, lines } => 0 <= row <= v.lines.len() && 1
            <= v.lines.len(),
        CommandView::DeleteLines { row, col, lines, emptied } => if emptied {
            row == 0 && lines == v.lines && lines.len() >= 1
        } else {
            0 <= row && row + lines.len() <= v.lines.len() && lines.len() < v.lines.len()
                && v.lines.subrange(row, row + lines.len()) == lines
        },
    }
}

/// Whether `text` is what line `row` holds from column `col`.
pub open spec fn deletes_text(v: TextAreaView, row: int, col: int, text: Seq<char>) -> bool {
    &&& 0 <= row < v.lines.len()
    &&& 0 <= col
    &&& col + text.len() <= v.lines[row].len()
    &&& v.lines[row].subrange(col, col + text.len()) == text
}

/// Whether each command of `block`, done in turn from `v`, is undoable from the
/// state it is done in.
pub open spec fn block_undoable(block: Seq<CommandView>, v: TextAreaView) -> bool {
    forall|i: int| 0 <= i < block.len() ==> undoable(#[trigger] block[i], apply_block(block.take(i), v))
}

/// Undoing a command right after doing it gives the lines back.
pub proof fn law_undo_reverts_command(c: CommandView, v: TextAreaView)
    requires
        undoable(c, v),
    ensures
        reverted(c, applied(c, v)).lines == v.lines,
{
    match c {
        CommandView::InsertText { row, col, text } => {
            lemma_delete_undoes_insert(v.lines[row], col, text);
            assert(reverted(c, applied(c, v)).lines =~= v.lines);
        },
        CommandView::InsertNewline { row, col } => {
            lemma_merge_undoes_split(v.lines, row, col);
        },
        CommandView::DeleteNewline { row, col } => {
            lemma_split_undoes_merge(v.lines, row);
        },
        CommandView::DeleteText { row, col, text } => {
            lemma_insert_undoes_delete(v.lines[row], col, text.len() as int);
            assert(reverted(c, applied(c, v)).lines =~= v.lines);
        },
        CommandView::DeleteText1 { row, col, text } => {
            lemma_insert_undoes_delete(v.lines[row], col, text.len() as int);
            assert(reverted(c, applied(c, v)).lines =~= v.lines);
        },
        CommandView::InsertLines { row, col, lines } => {
            assert(reverted(c, applied(c, v)).lines =~= v.lines);
        },
        CommandView::DeleteLines { row, col, lines, emptied } => {
            assert(reverted(c, applied(c, v)).lines =~= v.lines);
        },
    }
}

/// What undoing a command does to the lines depends on the lines alone.
pub proof fn lemma_reverted_lines(c: CommandView, v: TextAreaView, w: TextAreaView)
    requires
        v.lines == w.lines,
    ensures
        reverted(c, v).lines == reverted(c, w).lines,
{
}

/// What undoing a block does to the lines depends on the lines alone.
pub proof fn lemma_revert_block_lines(block: Seq<CommandView>, v: TextAreaView, w: TextAreaView)
    requires
        v.lines == w.lines,
    ensures
        revert_block(block, v).lines == revert_block(block, w).lines,
    decreases block.len(),
{
    if block.len() > 0 {
        lemma_reverted_lines(block.last(), v, w);
        lemma_revert_block_lines(block.drop_last(), reverted(block.last(), v), reverted(block.last(), w));
    }
}

/// Undoing a block right after doing its commands gives back the lines it
/// started from.
pub proof fn law_undo_reverts_block(block: Seq<CommandView>, v: TextAreaView)
    requires
        block_undoable(block, v),
    ensures
        revert_block(block, apply_block(block, v)).lines == v.lines,
    decreases block.len(),
{
    if block.len() > 0 {
        let init = block.drop_last();
        let w = apply_block(init, v);
        assert(block.take(block.len() - 1) =~= init);
        assert(undoable(block[block.len() - 1], w));
        law_undo_reverts_command(block.last(), w);
        assert forall|i: int| 0 <= i < init.len() implies undoable(
            #[trigger] init[i],
            apply_block(init.take(i), v),
        ) by {
            assert(init.take(i) =~= block.take(i));
            assert(undoable(block[i], apply_block(block.take(i), v)));
        }
        law_undo_reverts_block(init, v);
        lemma_revert_block_lines(init, reverted(block.last(), applied(block.last(), w)), w);
    }
}

/// Text typed right after an insertion, merged into it, does what the two
/// insertions do one after the other.
pub proof fn law_merged_insert_is_sequence(c1: CommandView, c2: CommandView, v: TextAreaView)
    requires
        c1 is InsertText,
        merged(c1, c2) is Some,
        undoable(c1, v),
    ensures
        applied(merged(c1, c2)->Some_0, v).lines == applied(c2, applied(c1, v)).lines,
{
    lemma_insert_consecutive(
        v.lines[c1->InsertText_row],
        c1->InsertText_col,
        c1->InsertText_text,
        c2->InsertText_text,
    );
    assert(applied(merged(c1, c2)->Some_0, v).lines =~= applied(c2, applied(c1, v)).lines);
}

/// A backspace-style deletion just before an earlier one, merged into it, is
/// undone as undoing the later deletion and then the earlier one would.
pub proof fn law_merged_backspace_is_sequence(c1: CommandView, c2: CommandView, v: TextAreaView)
    requires
        c1 is DeleteText1,
        c2 is DeleteText1,
        c1->DeleteText1_row == c2->DeleteText1_row,
        c1->DeleteText1_col == c2->DeleteText1_col + c2->DeleteText1_text.len(),
        c1->DeleteText1_col + c1->DeleteText1_text.len() != c2->DeleteText1_col,
        0 <= c2->DeleteText1_col <= v.lines[c2->DeleteText1_row].len(),
        0 <= c2->DeleteText1_row < v.lines.len(),
    ensures
        merged(c1, c2) is Some,
        reverted(merged(c1, c2)->Some_0, v).lines == reverted(c1, reverted(c2, v)).lines,
{
    lemma_insert_consecutive(
        v.lines[c2->DeleteText1_row],
        c2->DeleteText1_col,
        c2->DeleteText1_text,
        c1->DeleteText1_text,
    );
    assert(reverted(merged(c1, c2)->Some_0, v).lines =~= reverted(c1, reverted(c2, v)).lines);
}

} // verus!
