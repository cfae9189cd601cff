//! The editing buffer: a list of lines and a cursor, with the operations a
//! modal editor performs on them.

use vstd::prelude::*;
use vstd::utf8::encode_utf8;
use crate::text::{
    char_substring, char_to_byte_index, delete_chars, first_non_blank, leading_blanks, lines_of,
    split_lines, string_push, string_views, insert_chars, lemma_encode_concat, lemma_encode_injective,
    lemma_split_at_char, lines_scan, prefix, strip_cr, string_insert_str, string_replace_range, string_split_off,
};

verus! {

/// One line of the buffer, without its line terminator.
pub struct Line {
    text: String,
}

impl Line {
    pub closed spec fn chars(&self) -> Seq<char> {
        self.text@
    }

    pub fn new(text: String) -> (line: Line)
        ensures
            line.chars() == text@,
    {
        Line { text }
    }

    /// Number of characters in the line.
    pub fn length(&self) -> (n: usize)
        ensures
            n == self.chars().len(),
    {
        self.text.as_str().unicode_len()
    }

    /// Inserts `text` before the character at `col` (at the end when `col` is past it).
    pub fn insert_text(&mut self, text: &str, col: usize)
        ensures
            final(self).chars() == insert_chars(old(self).chars(), col as int, text@),
    {
        let byte_idx = char_to_byte_index(self.text.as_str(), col);
        let ghost s = self.text@;
        let ghost k = prefix(s, col as int).len() as int;
        proof {
            lemma_split_at_char(s, k);
            assert(prefix(s, col as int) =~= s.take(k));
        }
        string_insert_str(&mut self.text, byte_idx, text);
        proof {
            lemma_encode_concat(s.take(k), text@);
            lemma_encode_concat(s.take(k) + text@, s.skip(k));
            lemma_encode_injective(self.text@, s.take(k) + text@ + s.skip(k));
        }
    }

    /// Removes the characters at positions `col .. col + len` that exist.
    pub fn delete_text(&mut self, col: usize, len: usize)
        requires
            col + len <= usize::MAX,
        ensures
            final(self).chars() == delete_chars(old(self).chars(), col as int, len as int),
    {
        let byte_idx = char_to_byte_index(self.text.as_str(), col);
        let end = char_to_byte_index(self.text.as_str(), col + len);
        let ghost s = self.text@;
        let ghost k1 = prefix(s, col as int).len() as int;
        let ghost k2 = prefix(s, col + len).len() as int;
        proof {
            lemma_split_at_char(s, k1);
            lemma_split_at_char(s, k2);
            assert(prefix(s, col as int) =~= s.take(k1));
            assert(prefix(s, col + len) =~= s.take(k2));
            lemma_split_at_char(s.take(k2), k1);
            assert(s.take(k2).take(k1) =~= s.take(k1));
        }
        string_replace_range(&mut self.text, byte_idx, end, "");
        proof {
            reveal_strlit("");
            assert(""@ =~= Seq::<char>::empty());
            assert(encode_utf8(""@) =~= Seq::<u8>::empty());
            lemma_encode_concat(s.take(k1), s.skip(k2));
            assert(encode_utf8(self.text@) =~= encode_utf8(s.take(k1) + s.skip(k2)));
            lemma_encode_injective(self.text@, s.take(k1) + s.skip(k2));
        }
    }
}

/// The abstract state of a [`TextArea`]: its lines (as characters, without
/// terminators), the cursor, the column that vertical moves aim for, and the
/// frozen position before which the cursor may not delete or move left.
pub struct TextAreaView {
    pub lines: Seq<Seq<char>>,
    pub row: int,
    pub col: int,
    pub preferred_col: int,
    pub frozen: (int, int),
}

/// Smaller of two integers.
pub open spec fn min(a: int, b: int) -> int {
    if a <= b { a } else { b }
}

/// `a - b`, or zero when that would be negative.
pub open spec fn saturating_sub(a: int, b: int) -> int {
    if a >= b { a - b } else { 0 }
}

/// The lines with the one at `row` replaced by its first `col` characters
/// followed by a new line holding the rest.
pub open spec fn split_line(lines: Seq<Seq<char>>, row: int, col: int) -> Seq<Seq<char>> {
    let l = lines[row];
    let k = prefix(l, col).len() as int;
    lines.take(row) + seq![l.take(k), l.skip(k)] + lines.skip(row + 1)
}

/// The lines with the one after `row` appended to the one at `row`.
pub open spec fn merge_line(lines: Seq<Seq<char>>, row: int) -> Seq<Seq<char>> {
    lines.take(row) + seq![lines[row] + lines[row + 1]] + lines.skip(row + 2)
}

/// A buffer state with a line, the cursor row at most the number of lines,
/// and positions that are `usize` values.
pub open spec fn view_wf(v: TextAreaView) -> bool {
    &&& v.lines.len() >= 1
    &&& 0 <= v.row <= v.lines.len()
    &&& 0 <= v.col <= usize::MAX
    &&& 0 <= v.preferred_col <= usize::MAX
    &&& 0 <= v.frozen.0 <= usize::MAX
    &&& 0 <= v.frozen.1 <= usize::MAX
}

/// The buffer of an editor: never without a line, and the cursor row never past
/// the end of the lines.
pub struct TextArea {
    lines: Vec<Line>,
    cursor_row: usize,
    cursor_col: usize,
    preferred_col: usize,
    frozen_pos: (usize, usize),
}

impl View for TextArea {
    type V = TextAreaView;

    closed spec fn view(&self) -> TextAreaView {
        TextAreaView {
            lines: self.lines@.map_values(|l: Line| l.chars()),
            row: self.cursor_row as int,
            col: self.cursor_col as int,
            preferred_col: self.preferred_col as int,
            frozen: (self.frozen_pos.0 as int, self.frozen_pos.1 as int),
        }
    }
}

impl TextArea {
    /// The buffer holds at least one line and the cursor row is at most the
    /// number of lines; the positions are those of `usize` values.
    pub open spec fn wf(&self) -> bool {
        view_wf(self@)
    }

    /// A buffer with one empty line and the cursor at its start.
    pub fn new() -> (ta: TextArea)
        ensures
            ta.wf(),
            ta@ == empty_view(),
    {
        let mut lines: Vec<Line> = Vec::new();
        lines.push(Line::new(String::new()));
        let ta = TextArea {
            lines,
            cursor_row: 0,
            cursor_col: 0,
            preferred_col: 0,
            frozen_pos: (0, 0),
        };
        assert(ta@.lines =~= seq![Seq::<char>::empty()]);
        ta
    }

    /// Inserts `text` (which is not meant to hold line breaks) at the cursor and
    /// moves the cursor past it.
    pub fn insert_text_at_cursor(&mut self, text: &str)
        requires
            old(self).wf(),
            old(self)@.row < old(self)@.lines.len() ==> old(self)@.col + text@.len()
                <= usize::MAX,
        ensures
            final(self).wf(),
            final(self)@ == insert_text_result(old(self)@, old(self)@.row, old(self)@.col, text@),
    {
        self.insert_text_at(self.cursor_row, self.cursor_col, text);
    }

    /// Inserts `text` into line `row` before the character at `col` and puts the
    /// cursor just past it; nothing happens when there is no line `row`.
    pub fn insert_text_at(&mut self, row: usize, col: usize, text: &str)
        requires
            old(self).wf(),
            row < old(self)@.lines.len() ==> col + text@.len() <= usize::MAX,
        ensures
            final(self).wf(),
            final(self)@ == insert_text_result(old(self)@, row as int, col as int, text@),
    {
        if row < self.lines.len() {
            let n = text.unicode_len();
            self.lines[row].insert_text(text, col);
            self.cursor_row = row;
            self.cursor_col = col + n;
            self.preferred_col = self.cursor_col;
            assert(self@.lines =~= old(self)@.lines.update(
                row as int,
                insert_chars(old(self)@.lines[row as int], col as int, text@),
            ));
        }
    }

    /// Removes the characters at `col .. col + n` of line `row` and puts the cursor
    /// at `col`; nothing happens when there is no line `row`.
    pub fn delete_chars_at(&mut self, row: usize, col: usize, n: usize)
        requires
            old(self).wf(),
            col + n <= usize::MAX,
        ensures
            final(self).wf(),
            final(self)@ == delete_text_result(old(self)@, row as int, col as int, n as int),
    {
        if row < self.lines.len() {
            self.lines[row].delete_text(col, n);
            self.cursor_row = row;
            self.cursor_col = col;
            self.preferred_col = col;
            assert(self@.lines =~= old(self)@.lines.update(
                row as int,
                delete_chars(old(self)@.lines[row as int], col as int, n as int),
            ));
        }
    }

    /// Breaks the line at the cursor in two at the cursor column and moves the
    /// cursor to the start of the new line.
    pub fn insert_newline_at_cursor(&mut self)
        requires
            old(self).wf(),
        ensures
            final(self).wf(),
            final(self)@ == newline_result(old(self)@, old(self)@.row, old(self)@.col),
    {
        self.insert_newline_at(self.cursor_row, self.cursor_col);
    }

    /// Breaks line `row` in two before the character at `col` and moves the cursor
    /// to the start of the second part; nothing happens when there is no line `row`.
    pub fn insert_newline_at(&mut self, row: usize, col: usize)
        requires
            old(self).wf(),
        ensures
            final(self).wf(),
            final(self)@ == newline_result(old(self)@, row as int, col as int),
    {
        if row < self.lines.len() {
            let ghost l = self@.lines[row as int];
            let ghost k = prefix(l, col as int).len() as int;
            let byte_idx = char_to_byte_index(self.lines[row].text.as_str(), col);
            proof {
                lemma_split_at_char(l, k);
                assert(prefix(l, col as int) =~= l.take(k));
            }
            let remaining = string_split_off(&mut self.lines[row].text, byte_idx);
            proof {
                lemma_encode_injective(self.lines@[row as int].text@, l.take(k));
                lemma_encode_injective(remaining@, l.skip(k));
            }
            self.lines.insert(row + 1, Line::new(remaining));
            self.cursor_row = row + 1;
            self.cursor_col = 0;
            self.preferred_col = 0;
            assert(self@.lines =~= split_line(old(self)@.lines, row as int, col as int));
        }
    }

    /// Appends line `row + 1` to line `row` and puts the cursor at the join; nothing
    /// happens when there is no line after `row`.
    pub fn merge_lines_at(&mut self, row: usize)
        requires
            old(self).wf(),
        ensures
            final(self).wf(),
            final(self)@ == merge_result(old(self)@, row as int),
    {
        if row < self.lines.len() && row < self.lines.len() - 1 {
            let next = self.lines.remove(row + 1);
            let col = self.lines[row].length();
            self.lines[row].text.append(next.text.as_str());
            self.cursor_row = row;
            self.cursor_col = col;
            self.preferred_col = col;
            assert(self@.lines =~= merge_line(old(self)@.lines, row as int));
        }
    }

    /// Number of characters in line `row`, if there is such a line.
    pub fn line_length(&self, row: usize) -> (n: Option<usize>)
        ensures
            n matches Some(k) ==> row < self@.lines.len() && k == self@.lines[row as int].len(),
            n is None ==> row >= self@.lines.len(),
    {
        if row < self.lines.len() {
            Some(self.lines[row].length())
        } else {
            None
        }
    }

    /// Number of lines.
    pub fn line_count(&self) -> (n: usize)
        ensures
            n == self@.lines.len(),
    {
        self.lines.len()
    }

    /// The cursor as (row, column).
    pub fn cursor_position(&self) -> (pos: (usize, usize))
        ensures
            pos.0 == self@.row,
            pos.1 == self@.col,
    {
        (self.cursor_row, self.cursor_col)
    }

    /// The frozen position as (row, column).
    pub fn frozen_position(&self) -> (pos: (usize, usize))
        ensures
            pos.0 == self@.frozen.0,
            pos.1 == self@.frozen.1,
    {
        self.frozen_pos
    }

    /// Whether the buffer is a single empty line.
    pub fn is_empty(&self) -> (b: bool)
        requires
            self.wf(),
        ensures
            b == (self@.lines.len() == 1 && self@.lines[0].len() == 0),
    {
        self.lines.len() == 1 && self.lines[0].length() == 0
    }

    /// Moves the cursor into the buffer: onto the last line when it is past the
    /// lines, and to at most the end of its line.
    pub fn clamp_cursor(&mut self)
        requires
            old(self).wf(),
        ensures
            final(self).wf(),
            final(self)@ == clamp_result(old(self)@),
    {
        if self.cursor_row >= self.lines.len() {
            self.cursor_row = self.lines.len() - 1;
        }
        let length = self.lines[self.cursor_row].length();
        if self.cursor_col > length {
            self.cursor_col = length;
        }
    }

    /// Moves the cursor onto a character: onto the last line when it is past the
    /// lines, and to at most the last character of its line.
    pub fn clamp1_cursor(&mut self)
        requires
            old(self).wf(),
        ensures
            final(self).wf(),
            final(self)@ == clamp1_result(old(self)@),
    {
        if self.cursor_row >= self.lines.len() {
            self.cursor_row = self.lines.len() - 1;
        }
        let length = self.lines[self.cursor_row].length();
        let max_col = if length >= 1 { length - 1 } else { 0 };
        if self.cursor_col > max_col {
            self.cursor_col = max_col;
        }
    }

    /// Backspace: removes the character before the cursor, or with
    /// `can_delete_newline` at the start of a line joins the line onto the one
    /// above. Nothing happens when the cursor is at or before the frozen position.
    pub fn delete_char_before_cursor(&mut self, can_delete_newline: bool)
        requires
            old(self).wf(),
            !before_frozen(old(self)@) && can_delete_newline && old(self)@.col == 0
                ==> old(self)@.row < old(self)@.lines.len(),
            !before_frozen(old(self)@) && !(can_delete_newline && old(self)@.col == 0)
                && old(self)@.row < old(self)@.lines.len() ==> old(self)@.col >= 1,
        ensures
            final(self).wf(),
            final(self)@ == delete_before_result(old(self)@, can_delete_newline),
    {
        if self.cursor_row < self.frozen_pos.0 || (self.cursor_row == self.frozen_pos.0
            && self.cursor_col <= self.frozen_pos.1) {
            return;
        }
        if can_delete_newline && self.cursor_col == 0 {
            let current_line = self.lines.remove(self.cursor_row);
            let prev = self.cursor_row - 1;
            let col = self.lines[prev].length();
            self.cursor_col = col;
            self.preferred_col = col;
            self.lines[prev].text.append(current_line.text.as_str());
            self.cursor_row = prev;
            assert(self@.lines =~= merge_line(old(self)@.lines, prev as int));
            return;
        }
        if self.cursor_row < self.lines.len() {
            let row = self.cursor_row;
            self.lines[row].delete_text(self.cursor_col - 1, 1);
            self.cursor_col = self.cursor_col - 1;
            self.preferred_col = self.cursor_col;
            assert(self@.lines =~= old(self)@.lines.update(
                row as int,
                delete_chars(old(self)@.lines[row as int], old(self)@.col - 1, 1),
            ));
        }
    }

    /// Delete: removes the character under the cursor, or with
    /// `can_delete_newline` at the end of a line joins the next line onto it.
    /// The cursor stays where it is.
    pub fn delete_char_after_cursor(&mut self, can_delete_newline: bool)
        requires
            old(self).wf(),
        ensures
            final(self).wf(),
            final(self)@ == delete_after_result(old(self)@, can_delete_newline),
    {
        let line_count = self.lines.len();
        if self.cursor_row >= line_count {
            return;
        }
        let row = self.cursor_row;
        let line_len = self.lines[row].length();
        if self.cursor_col < line_len {
            self.lines[row].delete_text(self.cursor_col, 1);
            assert(self@.lines =~= old(self)@.lines.update(
                row as int,
                delete_chars(old(self)@.lines[row as int], old(self)@.col, 1),
            ));
        } else if can_delete_newline && self.cursor_col == line_len && row < line_count - 1 {
            let next_line = self.lines.remove(row + 1);
            self.lines[row].text.append(next_line.text.as_str());
            assert(self@.lines =~= merge_line(old(self)@.lines, row as int));
        }
    }

    /// Removes `n` lines starting at the cursor line (all lines, leaving one
    /// empty line, when `n` is at least the number of lines), then moves the
    /// cursor onto a character.
    pub fn delete_lines_at_cursor(&mut self, n: usize)
        requires
            old(self).wf(),
        ensures
            final(self).wf(),
            final(self)@ == delete_lines_result(old(self)@, n as int),
    {
        if n >= self.lines.len() {
            self.lines.clear();
            self.lines.push(Line::new(String::new()));
            self.cursor_row = 0;
            self.cursor_col = 0;
            self.preferred_col = 0;
            assert(self@.lines =~= seq![Seq::<char>::empty()]);
            return;
        }
        if self.cursor_row < self.lines.len() {
            let row = self.cursor_row;
            let actual_n = if n <= self.lines.len() - row { n } else { self.lines.len() - row };
            let ghost old_lines = self@.lines;
            let mut i: usize = 0;
            while i < actual_n
                invariant
                    row == self.cursor_row,
                    i <= actual_n,
                    actual_n <= old_lines.len() - row,
                    actual_n < old_lines.len(),
                    self.lines@.len() == old_lines.len() - i,
                    self@.lines =~= old_lines.take(row as int) + old_lines.skip(row + i),
                    self@.col == old(self)@.col,
                    self@.preferred_col == old(self)@.preferred_col,
                    self@.frozen == old(self)@.frozen,
                decreases actual_n - i,
            {
                let ghost before = self@.lines;
                self.lines.remove(row);
                assert(self@.lines =~= before.take(row as int) + before.skip(row + 1));
                i = i + 1;
                assert(self@.lines =~= old_lines.take(row as int) + old_lines.skip(row + i));
            }
            self.clamp1_cursor();
            self.preferred_col = self.cursor_col;
        }
    }

    /// Removes the characters before the cursor on its line and moves the cursor
    /// to the start of the line.
    pub fn delete_to_start_of_line(&mut self)
        requires
            old(self).wf(),
        ensures
            final(self).wf(),
            final(self)@ == delete_to_start_result(old(self)@),
    {
        if self.cursor_row < self.lines.len() && self.cursor_col > 0 {
            let row = self.cursor_row;
            self.lines[row].delete_text(0, self.cursor_col);
            self.cursor_col = 0;
            self.preferred_col = 0;
            assert(self@.lines =~= old(self)@.lines.update(
                row as int,
                delete_chars(old(self)@.lines[row as int], 0, old(self)@.col),
            ));
        }
    }

    /// Removes the characters from the cursor to the end of its line, then moves
    /// the cursor onto a character.
    pub fn delete_to_end_of_line(&mut self)
        requires
            old(self).wf(),
        ensures
            final(self).wf(),
            final(self)@ == delete_to_end_result(old(self)@),
    {
        if self.cursor_row < self.lines.len() {
            let row = self.cursor_row;
            let line_len = self.lines[row].length();
            let ghost l = old(self)@.lines[row as int];
            if self.cursor_col < line_len {
                self.lines[row].delete_text(self.cursor_col, line_len - self.cursor_col);
                assert(l.skip(l.len() as int) =~= Seq::<char>::empty());
                assert(delete_chars(l, old(self)@.col, line_len - old(self)@.col) =~= prefix(
                    l,
                    old(self)@.col,
                ));
            } else {
                assert(prefix(l, old(self)@.col) =~= l);
            }
            assert(self@.lines =~= old(self)@.lines.update(
                row as int,
                prefix(old(self)@.lines[row as int], old(self)@.col),
            ));
            self.clamp1_cursor();
        }
    }

    /// Opens an empty line above the cursor line and moves the cursor to its start.
    pub fn new_line_above_cursor(&mut self)
        requires
            old(self).wf(),
        ensures
            final(self).wf(),
            final(self)@ == new_line_above_result(old(self)@),
    {
        if self.cursor_row < self.lines.len() {
            self.lines.insert(self.cursor_row, Line::new(String::new()));
            self.cursor_col = 0;
            self.preferred_col = 0;
            assert(self@.lines =~= old(self)@.lines.insert(old(self)@.row, Seq::<char>::empty()));
        }
    }

    /// Opens an empty line below the cursor line and moves the cursor to its start.
    pub fn new_line_below_cursor(&mut self)
        requires
            old(self).wf(),
        ensures
            final(self).wf(),
            final(self)@ == new_line_below_result(old(self)@),
    {
        if self.cursor_row < self.lines.len() {
            self.lines.insert(self.cursor_row + 1, Line::new(String::new()));
            self.cursor_row = self.cursor_row + 1;
            self.cursor_col = 0;
            self.preferred_col = 0;
            assert(self@.lines =~= old(self)@.lines.insert(
                old(self)@.row + 1,
                Seq::<char>::empty(),
            ));
        }
    }

    /// Adds `text` as a new last line.
    pub fn append_line(&mut self, text: &str)
        requires
            old(self).wf(),
        ensures
            final(self).wf(),
            final(self)@ == append_line_result(old(self)@, text@),
    {
        self.lines.push(Line::new(text.to_owned()));
        assert(self@.lines =~= old(self)@.lines.push(text@));
    }

    /// Moves the cursor to (`row`, `col`), kept on an existing line and on a
    /// character of it (the start of an empty line).
    pub fn goto_cursor(&mut self, row: usize, col: usize)
        requires
            old(self).wf(),
        ensures
            final(self).wf(),
            final(self)@ == goto_result(old(self)@, row as int, col as int),
    {
        let last = self.lines.len() - 1;
        self.cursor_row = if row <= last { row } else { last };
        let line_len = self.lines[self.cursor_row].length();
        let max_col = if line_len >= 1 { line_len - 1 } else { 0 };
        self.cursor_col = if col <= max_col { col } else { max_col };
        self.preferred_col = self.cursor_col;
    }

    /// Moves the cursor one character left, not past the frozen column.
    pub fn move_left_cursor(&mut self)
        requires
            old(self).wf(),
        ensures
            final(self).wf(),
            final(self)@ == move_left_result(old(self)@),
    {
        if self.cursor_col > self.frozen_pos.1 {
            self.cursor_col = self.cursor_col - 1;
            self.preferred_col = self.cursor_col;
        }
    }

    /// Moves the cursor one character right while it stays on a character.
    pub fn move_right1_cursor(&mut self)
        requires
            old(self).wf(),
        ensures
            final(self).wf(),
            final(self)@ == move_right1_result(old(self)@),
    {
        if self.cursor_row < self.lines.len() {
            let line_len = self.lines[self.cursor_row].length();
            if line_len > 1 && self.cursor_col < line_len - 1 {
                self.cursor_col = self.cursor_col + 1;
                self.preferred_col = self.cursor_col;
            }
        }
    }

    /// Moves the cursor one character right, up to just past the end of the line.
    pub fn move_right_cursor(&mut self)
        requires
            old(self).wf(),
        ensures
            final(self).wf(),
            final(self)@ == move_right_result(old(self)@),
    {
        if self.cursor_row < self.lines.len() {
            let line_len = self.lines[self.cursor_row].length();
            if line_len > 0 && self.cursor_col < line_len {
                self.cursor_col = self.cursor_col + 1;
                self.preferred_col = self.cursor_col;
            }
        }
    }

    /// Moves the cursor one line up, not above the frozen row, aiming for the
    /// preferred column.
    pub fn move_up_cursor(&mut self)
        requires
            old(self).wf(),
        ensures
            final(self).wf(),
            final(self)@ == move_up_result(old(self)@),
    {
        if self.cursor_row > self.frozen_pos.0 {
            self.cursor_row = self.cursor_row - 1;
            self.vertical_column();
        }
    }

    /// Moves the cursor one line down, not past the last line, aiming for the
    /// preferred column.
    pub fn move_down_cursor(&mut self)
        requires
            old(self).wf(),
        ensures
            final(self).wf(),
            final(self)@ == move_down_result(old(self)@),
    {
        if self.cursor_row < self.lines.len() - 1 {
            self.cursor_row = self.cursor_row + 1;
            self.vertical_column();
        }
    }

    /// After a vertical move: the preferred column, kept on a character of the new line.
    fn vertical_column(&mut self)
        requires
            old(self).wf(),
            old(self)@.row < old(self)@.lines.len(),
        ensures
            final(self).wf(),
            final(self)@ == vertical_move(old(self)@, old(self)@.row),
    {
        let line_len = self.lines[self.cursor_row].length();
        if line_len < 2 {
            self.cursor_col = 0;
        } else {
            self.cursor_col = if self.preferred_col <= line_len - 1 {
                self.preferred_col
            } else {
                line_len - 1
            };
        }
    }

    /// Moves the cursor to the first character of its line that is not white
    /// space (the start of the line when there is none).
    pub fn first_non_blank_of_line_cursor(&mut self)
        requires
            old(self).wf(),
        ensures
            final(self).wf(),
            final(self)@ == first_non_blank_result(old(self)@),
    {
        if self.cursor_row < self.lines.len() {
            assert(self.lines@[self.cursor_row as int].chars() == self@.lines[self@.row]);
            let col = match first_non_blank(self.lines[self.cursor_row].text.as_str()) {
                Some(c) => c,
                None => 0,
            };
            self.cursor_col = col;
            self.preferred_col = col;
        }
    }

    /// Moves the cursor to the start of its line.
    pub fn start_of_line_cursor(&mut self)
        requires
            old(self).wf(),
        ensures
            final(self).wf(),
            final(self)@ == at_column(old(self)@, 0),
    {
        self.cursor_col = 0;
        self.preferred_col = self.cursor_col;
    }

    /// Moves the cursor just past the end of its line.
    pub fn end_of_line_cursor(&mut self)
        requires
            old(self).wf(),
        ensures
            final(self).wf(),
            final(self)@ == end_of_line_result(old(self)@),
    {
        if self.cursor_row < self.lines.len() {
            let line_len = self.lines[self.cursor_row].length();
            self.cursor_col = line_len;
            self.preferred_col = self.cursor_col;
        }
    }

    /// Moves the cursor `offset` characters back from the end of its line (to
    /// its start when the line is shorter).
    pub fn end_offset_of_line_cursor(&mut self, offset: usize)
        requires
            old(self).wf(),
        ensures
            final(self).wf(),
            final(self)@ == end_offset_result(old(self)@, offset as int),
    {
        if self.cursor_row < self.lines.len() {
            let line_len = self.lines[self.cursor_row].length();
            self.cursor_col = if line_len >= offset { line_len - offset } else { 0 };
            self.preferred_col = self.cursor_col;
        }
    }

    /// The characters of the cursor line before the cursor.
    pub fn cursor_prefix_string(&self) -> (s: String)
        ensures
            s@ == (if self@.row < self@.lines.len() {
                prefix(self@.lines[self@.row], self@.col)
            } else {
                Seq::<char>::empty()
            }),
    {
        if self.cursor_row < self.lines.len() {
            let line = &self.lines[self.cursor_row];
            let len = line.length();
            let end = if self.cursor_col <= len { self.cursor_col } else { len };
            let r = char_substring(line.text.as_str(), 0, end);
            assert(r@ =~= prefix(self@.lines[self@.row], self@.col));
            r
        } else {
            String::new()
        }
    }

    /// The characters `col .. col + len` of line `row`, when they all exist.
    pub fn line_string_slice(&self, row: usize, col: usize, len: usize) -> (s: Option<String>)
        ensures
            s matches Some(t) ==> line_slice(self@, row as int, col as int, len as int) == Some(t@)
                && col + len <= usize::MAX,
            s is None ==> line_slice(self@, row as int, col as int, len as int) is None,
    {
        if row < self.lines.len() {
            let line = &self.lines[row];
            let line_len = line.length();
            if col <= line_len && len <= line_len - col {
                return Some(char_substring(line.text.as_str(), col, col + len));
            }
        }
        None
    }

    /// A buffer holding the lines of `s` (one empty line when it has none), with
    /// the cursor at the start.
    pub fn from_string(s: &str) -> (ta: TextArea)
        ensures
            ta.wf(),
            ta@ == string_view(s@),
    {
        let mut lines = lines_from_strings(split_lines(s));
        if lines.len() == 0 {
            lines.push(Line::new(String::new()));
            assert(lines@.map_values(|l: Line| l.chars()) =~= seq![Seq::<char>::empty()]);
        }
        TextArea { lines, cursor_row: 0, cursor_col: 0, preferred_col: 0, frozen_pos: (0, 0) }
    }

    /// A buffer holding the lines of the prompt `s`, with the cursor and the
    /// frozen position at the end of its last line: what the prompt holds can
    /// be neither deleted nor moved into from the left.
    pub fn from_prompt(s: &str) -> (ta: TextArea)
        requires
            lines_of(s@).len() >= 1,
        ensures
            ta.wf(),
            ta@ == prompt_view(s@),
    {
        let lines = lines_from_strings(split_lines(s));
        let row = lines.len() - 1;
        let col = lines[row].length();
        TextArea {
            lines,
            cursor_row: row,
            cursor_col: col,
            preferred_col: col,
            frozen_pos: (row, col),
        }
    }

    /// Inserts the lines of `text` above the cursor line; the cursor row stays
    /// and its column goes to the start.
    pub fn insert_multiline_text_above_cursor(&mut self, text: &str)
        requires
            old(self).wf(),
        ensures
            final(self).wf(),
            final(self)@ == (TextAreaView {
                lines: old(self)@.lines.take(old(self)@.row) + lines_of(text@) + old(
                    self,
                )@.lines.skip(old(self)@.row),
                col: 0,
                preferred_col: 0,
                ..old(self)@
            }),
    {
        let insert_pos = self.cursor_row;
        self.splice_lines(insert_pos, lines_from_strings(split_lines(text)));
        self.cursor_col = 0;
        self.preferred_col = 0;
    }

    /// Inserts the lines of `text` below the cursor line and moves the cursor to
    /// the start of the line after it.
    pub fn insert_multiline_text_below_cursor(&mut self, text: &str)
        requires
            old(self).wf(),
            old(self)@.row < old(self)@.lines.len(),
        ensures
            final(self).wf(),
            final(self)@ == (TextAreaView {
                lines: old(self)@.lines.take(old(self)@.row + 1) + lines_of(text@) + old(
                    self,
                )@.lines.skip(old(self)@.row + 1),
                row: old(self)@.row + 1,
                col: 0,
                preferred_col: 0,
                frozen: old(self)@.frozen,
            }),
    {
        let len = self.lines.len();
        assert(self.cursor_row < len);
        let insert_pos = self.cursor_row + 1;
        self.splice_lines(insert_pos, lines_from_strings(split_lines(text)));
        self.cursor_row = self.cursor_row + 1;
        self.cursor_col = 0;
        self.preferred_col = 0;
    }

    /// Inserts `lines` before line `row` (after the last line when `row` is past it).
    pub fn insert_lines_at(&mut self, row: usize, lines: Vec<String>)
        requires
            old(self).wf(),
        ensures
            final(self).wf(),
            final(self)@ == insert_lines_result(old(self)@, row as int, string_views(lines@)),
    {
        let pos = if row <= self.lines.len() { row } else { self.lines.len() };
        self.splice_lines(pos, lines_from_strings(lines));
    }

    fn splice_lines(&mut self, pos: usize, new_lines: Vec<Line>)
        requires
            old(self).wf(),
            pos <= old(self)@.lines.len(),
        ensures
            final(self)@ == (TextAreaView {
                lines: old(self)@.lines.take(pos as int) + new_lines@.map_values(
                    |l: Line| l.chars(),
                ) + old(self)@.lines.skip(pos as int),
                ..old(self)@
            }),
            final(self)@.lines.len() >= old(self)@.lines.len(),
    {
        let ghost added = new_lines@.map_values(|l: Line| l.chars());
        let mut new_lines = new_lines;
        let mut tail = self.lines.split_off(pos);
        self.lines.append(&mut new_lines);
        self.lines.append(&mut tail);
        assert(self@.lines =~= old(self)@.lines.take(pos as int) + added + old(
            self,
        )@.lines.skip(pos as int));
    }

    /// The lines `start .. end` joined by line feeds; with `mark_empty`, each
    /// empty line shows as `Mg`.
    fn join_range(&self, start: usize, end: usize, mark_empty: bool) -> (s: String)
        requires
            start <= end <= self@.lines.len(),
        ensures
            s@ == join_lines(shown_lines(self@.lines.subrange(start as int, end as int), mark_empty)),
    {
        let mut res = String::new();
        let mut i = start;
        let ghost all = self@.lines;
        assert(shown_lines(all.subrange(start as int, start as int), mark_empty) =~= Seq::<
            Seq<char>,
        >::empty());
        while i < end
            invariant
                start <= i <= end <= all.len(),
                all == self@.lines,
                res@ == join_lines(shown_lines(all.subrange(start as int, i as int), mark_empty)),
            decreases end - i,
        {
            let ghost prev = shown_lines(all.subrange(start as int, i as int), mark_empty);
            let ghost next = shown_lines(all.subrange(start as int, i + 1), mark_empty);
            assert(next.drop_last() =~= prev);
            assert(self.lines@[i as int].chars() == all[i as int]);
            if i != start {
                string_push(&mut res, '\n');
            }
            if mark_empty && self.lines[i].length() == 0 {
                proof {
                    reveal_strlit("Mg");
                }
                res.append("Mg");
                assert("Mg"@ =~= seq!['M', 'g']);
            } else {
                res.append(self.lines[i].text.as_str());
            }
            proof {
                if i == start {
                    assert(res@ =~= next[0]);
                } else {
                    assert(res@ =~= join_lines(prev) + seq!['\n'] + next.last());
                }
            }
            i = i + 1;
        }
        res
    }

    /// The whole buffer, lines joined by line feeds.
    pub fn string(&self) -> (s: String)
        ensures
            s@ == join_lines(self@.lines),
    {
        let r = self.join_range(0, self.lines.len(), false);
        assert(self@.lines.subrange(0, self@.lines.len() as int) =~= self@.lines);
        assert(shown_lines(self@.lines, false) =~= self@.lines);
        r
    }

    /// The buffer from line `row_offset` on, lines joined by line feeds.
    pub fn string_with_row_offset(&self, row_offset: usize) -> (s: String)
        ensures
            s@ == join_lines(self@.lines.skip(min(row_offset as int, self@.lines.len() as int))),
    {
        let start = if row_offset <= self.lines.len() { row_offset } else { self.lines.len() };
        let r = self.join_range(start, self.lines.len(), false);
        assert(self@.lines.subrange(start as int, self@.lines.len() as int) =~= self@.lines.skip(
            start as int,
        ));
        assert(shown_lines(self@.lines.skip(start as int), false) =~= self@.lines.skip(
            start as int,
        ));
        r
    }

    /// The lines from `row_offset` up to the cursor line (excluded), joined by line
    /// feeds, with each empty line shown as `Mg`: the text whose height puts the
    /// cursor line on screen.
    pub fn measure_lines_before_cursor_string(&self, row_offset: usize) -> (s: String)
        requires
            self.wf(),
        ensures
            s@ == join_lines(shown_lines(before_cursor(self@, row_offset as int), true)),
    {
        let start = if row_offset <= self.lines.len() { row_offset } else { self.lines.len() };
        let count = if self.cursor_row >= row_offset { self.cursor_row - row_offset } else { 0 };
        let end = if count <= self.lines.len() - start { start + count } else { self.lines.len() };
        let r = self.join_range(start, end, true);
        assert(self@.lines.subrange(start as int, end as int) =~= before_cursor(
            self@,
            row_offset as int,
        ));
        r
    }

    /// Copies of up to `count` lines from line `offset` on.
    pub fn lines_with(&self, offset: usize, count: usize) -> (lines: Vec<String>)
        ensures
            string_views(lines@) == lines_from(self@, offset as int, count as int),
    {
        let start = if offset <= self.lines.len() { offset } else { self.lines.len() };
        let end = if count <= self.lines.len() - start { start + count } else { self.lines.len() };
        let mut res: Vec<String> = Vec::new();
        let mut i = start;
        while i < end
            invariant
                start <= i <= end <= self@.lines.len(),
                string_views(res@) =~= self@.lines.subrange(start as int, i as int),
            decreases end - i,
        {
            assert(self.lines@[i as int].chars() == self@.lines[i as int]);
            let ghost prev = string_views(res@);
            res.push(self.lines[i].text.clone());
            assert(string_views(res@) =~= prev.push(self@.lines[i as int]));
            i = i + 1;
        }
        assert(self@.lines.subrange(start as int, end as int) =~= self@.lines.skip(
            start as int,
        ).take(end - start));
        res
    }
}

/// The state after `TextArea::delete_to_start_of_line`.
pub open spec fn delete_to_start_result(v: TextAreaView) -> TextAreaView {
    if v.row < v.lines.len() && v.col > 0 {
        TextAreaView {
            lines: v.lines.update(
                v.row,
                delete_chars(v.lines[v.row], 0, v.col),
            ),
            row: v.row,
            col: 0,
            preferred_col: 0,
            frozen: v.frozen,
        }
    } else {
        v
    }
}

/// The state after `TextArea::delete_to_end_of_line`.
pub open spec fn delete_to_end_result(v: TextAreaView) -> TextAreaView {
    if v.row < v.lines.len() {
        clamp1_result(
            TextAreaView {
                lines: v.lines.update(
                    v.row,
                    prefix(v.lines[v.row], v.col),
                ),
                ..v
            },
        )
    } else {
        v
    }
}

/// The state after `TextArea::new_line_above_cursor`.
pub open spec fn new_line_above_result(v: TextAreaView) -> TextAreaView {
    if v.row < v.lines.len() {
        TextAreaView {
            lines: v.lines.insert(v.row, Seq::<char>::empty()),
            col: 0,
            preferred_col: 0,
            ..v
        }
    } else {
        v
    }
}

/// The state after `TextArea::new_line_below_cursor`.
pub open spec fn new_line_below_result(v: TextAreaView) -> TextAreaView {
    if v.row < v.lines.len() {
        TextAreaView {
            lines: v.lines.insert(v.row + 1, Seq::<char>::empty()),
            row: v.row + 1,
            col: 0,
            preferred_col: 0,
            frozen: v.frozen,
        }
    } else {
        v
    }
}

/// The state after `TextArea::move_left_cursor`.
pub open spec fn move_left_result(v: TextAreaView) -> TextAreaView {
    if v.col > v.frozen.1 {
        at_column(v, v.col - 1)
    } else {
        v
    }
}

/// The state after `TextArea::move_right1_cursor`.
pub open spec fn move_right1_result(v: TextAreaView) -> TextAreaView {
    if v.row < v.lines.len() && v.lines[v.row].len() > 1 && v.col < v.lines[v.row].len() - 1 {
        at_column(v, v.col + 1)
    } else {
        v
    }
}

/// The state after `TextArea::move_right_cursor`.
pub open spec fn move_right_result(v: TextAreaView) -> TextAreaView {
    if v.row < v.lines.len() && v.lines[v.row].len() > 0 && v.col < v.lines[v.row].len() {
        at_column(v, v.col + 1)
    } else {
        v
    }
}

/// The state after `TextArea::move_up_cursor`.
pub open spec fn move_up_result(v: TextAreaView) -> TextAreaView {
    if v.row > v.frozen.0 {
        vertical_move(v, v.row - 1)
    } else {
        v
    }
}

/// The state after `TextArea::move_down_cursor`.
pub open spec fn move_down_result(v: TextAreaView) -> TextAreaView {
    if v.row + 1 < v.lines.len() {
        vertical_move(v, v.row + 1)
    } else {
        v
    }
}

/// The state after `TextArea::first_non_blank_of_line_cursor`.
pub open spec fn first_non_blank_result(v: TextAreaView) -> TextAreaView {
    if v.row < v.lines.len() {
        at_column(v, first_non_blank_col(v.lines[v.row]))
    } else {
        v
    }
}

/// The state after `TextArea::end_of_line_cursor`.
pub open spec fn end_of_line_result(v: TextAreaView) -> TextAreaView {
    if v.row < v.lines.len() {
        at_column(v, v.lines[v.row].len() as int)
    } else {
        v
    }
}

/// A buffer with one empty line and the cursor at its start.
pub open spec fn empty_view() -> TextAreaView {
    TextAreaView {
        lines: seq![Seq::<char>::empty()],
        row: 0,
        col: 0,
        preferred_col: 0,
        frozen: (0, 0),
    }
}

/// The buffer `TextArea::from_string` makes of `s`.
pub open spec fn string_view(s: Seq<char>) -> TextAreaView {
    TextAreaView {
        lines: if lines_of(s).len() == 0 { seq![Seq::<char>::empty()] } else { lines_of(s) },
        row: 0,
        col: 0,
        preferred_col: 0,
        frozen: (0, 0),
    }
}

/// The buffer `TextArea::from_prompt` makes of `s`: cursor and frozen position
/// at the end of its last line.
pub open spec fn prompt_view(s: Seq<char>) -> TextAreaView {
    let lines = lines_of(s);
    TextAreaView {
        lines,
        row: lines.len() - 1,
        col: lines.last().len() as int,
        preferred_col: lines.last().len() as int,
        frozen: (lines.len() - 1, lines.last().len() as int),
    }
}

/// The state after `TextArea::end_offset_of_line_cursor`.
pub open spec fn end_offset_result(v: TextAreaView, offset: int) -> TextAreaView {
    if v.row < v.lines.len() {
        at_column(v, saturating_sub(v.lines[v.row].len() as int, offset))
    } else {
        v
    }
}

/// The state after inserting `lines` before line `row` (after the last line
/// when `row` is past it); the cursor stays.
pub open spec fn insert_lines_result(v: TextAreaView, row: int, lines: Seq<Seq<char>>) -> TextAreaView {
    let at = min(row, v.lines.len() as int);
    TextAreaView { lines: v.lines.take(at) + lines + v.lines.skip(at), ..v }
}

/// The state after adding `text` as a new last line.
pub open spec fn append_line_result(v: TextAreaView, text: Seq<char>) -> TextAreaView {
    TextAreaView { lines: v.lines.push(text), ..v }
}

/// The characters `col .. col + len` of line `row`, when they all exist.
pub open spec fn line_slice(v: TextAreaView, row: int, col: int, len: int) -> Option<Seq<char>> {
    if 0 <= row < v.lines.len() && 0 <= col && 0 <= len && col + len <= v.lines[row].len() {
        Some(v.lines[row].subrange(col, col + len))
    } else {
        None
    }
}

/// Up to `count` lines from line `offset` on.
pub open spec fn lines_from(v: TextAreaView, offset: int, count: int) -> Seq<Seq<char>> {
    let start = min(offset, v.lines.len() as int);
    v.lines.skip(start).take(min(count, v.lines.len() - start))
}

/// The lines joined by line feeds.
pub open spec fn join_lines(ls: Seq<Seq<char>>) -> Seq<char>
    decreases ls.len(),
{
    if ls.len() == 0 {
        Seq::empty()
    } else if ls.len() == 1 {
        ls[0]
    } else {
        join_lines(ls.drop_last()) + seq!['\n'] + ls.last()
    }
}

/// The lines, with each empty one shown as `Mg` when `mark_empty` holds.
pub open spec fn shown_lines(ls: Seq<Seq<char>>, mark_empty: bool) -> Seq<Seq<char>> {
    ls.map_values(|l: Seq<char>| if mark_empty && l.len() == 0 { seq!['M', 'g'] } else { l })
}

/// The lines from `row_offset` up to the cursor line, excluded.
pub open spec fn before_cursor(v: TextAreaView, row_offset: int) -> Seq<Seq<char>> {
    let rest = v.lines.skip(min(row_offset, v.lines.len() as int));
    rest.take(min(saturating_sub(v.row, row_offset), rest.len() as int))
}

/// The lines of `strings`, as buffer lines.
fn lines_from_strings(strings: Vec<String>) -> (lines: Vec<Line>)
    ensures
        lines@.map_values(|l: Line| l.chars()) == string_views(strings@),
{
    let mut strings = strings;
    let mut rev: Vec<Line> = Vec::new();
    let ghost all = string_views(strings@);
    while strings.len() > 0
        invariant
            all == string_views(strings@) + rev@.map_values(|l: Line| l.chars()).reverse(),
        decreases strings.len(),
    {
        let s = strings.pop().unwrap();
        rev.push(Line::new(s));
        assert(all =~= string_views(strings@) + rev@.map_values(|l: Line| l.chars()).reverse());
    }
    let mut lines: Vec<Line> = Vec::new();
    while rev.len() > 0
        invariant
            all == lines@.map_values(|l: Line| l.chars()) + rev@.map_values(|l: Line| l.chars()).reverse(),
        decreases rev.len(),
    {
        let l = rev.pop().unwrap();
        lines.push(l);
        assert(all =~= lines@.map_values(|l: Line| l.chars()) + rev@.map_values(
            |l: Line| l.chars(),
        ).reverse());
    }
    assert(all =~= lines@.map_values(|l: Line| l.chars()));
    lines
}

/// The state with the cursor (and the preferred column) moved to `col` on its line.
pub open spec fn at_column(v: TextAreaView, col: int) -> TextAreaView {
    TextAreaView { col, preferred_col: col, ..v }
}

/// The state after a vertical move onto line `row`: the preferred column, kept
/// on a character of that line; the preferred column itself is kept.
pub open spec fn vertical_move(v: TextAreaView, row: int) -> TextAreaView {
    let len = v.lines[row].len() as int;
    TextAreaView { row, col: if len < 2 { 0 } else { min(v.preferred_col, len - 1) }, ..v }
}

/// The state after moving the cursor to (`row`, `col`), kept on an existing line
/// and on a character of it.
pub open spec fn goto_result(v: TextAreaView, row: int, col: int) -> TextAreaView {
    let r = min(row, v.lines.len() - 1);
    let c = min(col, saturating_sub(v.lines[r].len() as int, 1));
    TextAreaView { row: r, col: c, preferred_col: c, ..v }
}

/// Column of the first character of `line` that is not white space, or zero.
pub open spec fn first_non_blank_col(line: Seq<char>) -> int {
    if leading_blanks(line) < line.len() { leading_blanks(line) as int } else { 0 }
}

/// Whether the cursor is at or before the frozen position.
pub open spec fn before_frozen(v: TextAreaView) -> bool {
    v.row < v.frozen.0 || (v.row == v.frozen.0 && v.col <= v.frozen.1)
}

/// The state after moving the cursor into the buffer, up to the end of its line.
pub open spec fn clamp_result(v: TextAreaView) -> TextAreaView {
    let row = if v.row >= v.lines.len() { v.lines.len() - 1 } else { v.row };
    TextAreaView { row, col: min(v.col, v.lines[row].len() as int), ..v }
}

/// The state after moving the cursor into the buffer, up to the last character of its line.
pub open spec fn clamp1_result(v: TextAreaView) -> TextAreaView {
    let row = if v.row >= v.lines.len() { v.lines.len() - 1 } else { v.row };
    TextAreaView { row, col: min(v.col, saturating_sub(v.lines[row].len() as int, 1)), ..v }
}

/// The state after a backspace.
pub open spec fn delete_before_result(v: TextAreaView, can_delete_newline: bool) -> TextAreaView {
    if before_frozen(v) {
        v
    } else if can_delete_newline && v.col == 0 {
        TextAreaView {
            lines: merge_line(v.lines, v.row - 1),
            row: v.row - 1,
            col: v.lines[v.row - 1].len() as int,
            preferred_col: v.lines[v.row - 1].len() as int,
            frozen: v.frozen,
        }
    } else if v.row < v.lines.len() {
        TextAreaView {
            lines: v.lines.update(v.row, delete_chars(v.lines[v.row], v.col - 1, 1)),
            col: v.col - 1,
            preferred_col: v.col - 1,
            ..v
        }
    } else {
        v
    }
}

/// The state after a forward delete.
pub open spec fn delete_after_result(v: TextAreaView, can_delete_newline: bool) -> TextAreaView {
    if v.row >= v.lines.len() {
        v
    } else if v.col < v.lines[v.row].len() {
        TextAreaView { lines: v.lines.update(v.row, delete_chars(v.lines[v.row], v.col, 1)), ..v }
    } else if can_delete_newline && v.col == v.lines[v.row].len() && v.row + 1 < v.lines.len() {
        TextAreaView { lines: merge_line(v.lines, v.row), ..v }
    } else {
        v
    }
}

/// The state after deleting `n` lines at the cursor.
pub open spec fn delete_lines_result(v: TextAreaView, n: int) -> TextAreaView {
    if n >= v.lines.len() {
        TextAreaView { lines: seq![Seq::<char>::empty()], row: 0, col: 0, preferred_col: 0, ..v }
    } else if v.row < v.lines.len() {
        let k = min(n, v.lines.len() - v.row);
        let c = clamp1_result(
            TextAreaView { lines: v.lines.take(v.row) + v.lines.skip(v.row + k), ..v },
        );
        TextAreaView { preferred_col: c.col, ..c }
    } else {
        v
    }
}

/// The state after breaking line `row` at `col`.
pub open spec fn newline_result(v: TextAreaView, row: int, col: int) -> TextAreaView {
    if 0 <= row < v.lines.len() {
        TextAreaView {
            lines: split_line(v.lines, row, col),
            row: row + 1,
            col: 0,
            preferred_col: 0,
            frozen: v.frozen,
        }
    } else {
        v
    }
}

/// The state after joining line `row + 1` onto line `row`.
pub open spec fn merge_result(v: TextAreaView, row: int) -> TextAreaView {
    if 0 <= row && row + 1 < v.lines.len() {
        TextAreaView {
            lines: merge_line(v.lines, row),
            row,
            col: v.lines[row].len() as int,
            preferred_col: v.lines[row].len() as int,
            frozen: v.frozen,
        }
    } else {
        v
    }
}

/// The state after deleting `n` characters at (`row`, `col`).
pub open spec fn delete_text_result(v: TextAreaView, row: int, col: int, n: int) -> TextAreaView {
    if 0 <= row < v.lines.len() {
        TextAreaView {
            lines: v.lines.update(row, delete_chars(v.lines[row], col, n)),
            row,
            col,
            preferred_col: col,
            frozen: v.frozen,
        }
    } else {
        v
    }
}

/// The state after inserting `text` at (`row`, `col`).
pub open spec fn insert_text_result(v: TextAreaView, row: int, col: int, text: Seq<char>) -> TextAreaView {
    if 0 <= row < v.lines.len() {
        TextAreaView {
            lines: v.lines.update(row, insert_chars(v.lines[row], col, text)),
            row,
            col: col + text.len(),
            preferred_col: col + text.len(),
            frozen: v.frozen,
        }
    } else {
        v
    }
}

/// Deleting what was just inserted gives the line back.
pub proof fn lemma_delete_undoes_insert(line: Seq<char>, col: int, text: Seq<char>)
    requires
        0 <= col <= line.len(),
    ensures
        delete_chars(insert_chars(line, col, text), col, text.len() as int) == line,
{
    let ins = insert_chars(line, col, text);
    assert(prefix(line, col) =~= line.take(col));
    assert(ins =~= line.take(col) + text + line.skip(col));
    assert(prefix(ins, col) =~= line.take(col));
    assert(prefix(ins, col + text.len()) =~= line.take(col) + text);
    assert(ins.skip(col + text.len()) =~= line.skip(col));
    assert(line.take(col) + line.skip(col) =~= line);
}

/// Inserting back what was just deleted gives the line back.
pub proof fn lemma_insert_undoes_delete(line: Seq<char>, col: int, n: int)
    requires
        0 <= col,
        0 <= n,
        col + n <= line.len(),
    ensures
        insert_chars(delete_chars(line, col, n), col, line.subrange(col, col + n)) == line,
{
    let del = delete_chars(line, col, n);
    assert(prefix(line, col) =~= line.take(col));
    assert(prefix(line, col + n) =~= line.take(col + n));
    assert(del =~= line.take(col) + line.skip(col + n));
    assert(prefix(del, col) =~= line.take(col));
    assert(del.skip(col) =~= line.skip(col + n));
    assert(line.take(col) + line.subrange(col, col + n) + line.skip(col + n) =~= line);
}

/// Two insertions, the second just after the first, are one insertion of both texts.
pub proof fn lemma_insert_consecutive(line: Seq<char>, col: int, t1: Seq<char>, t2: Seq<char>)
    requires
        0 <= col <= line.len(),
    ensures
        insert_chars(insert_chars(line, col, t1), col + t1.len(), t2) == insert_chars(
            line,
            col,
            t1 + t2,
        ),
{
    let a = insert_chars(line, col, t1);
    assert(prefix(line, col) =~= line.take(col));
    assert(a =~= line.take(col) + t1 + line.skip(col));
    assert(prefix(a, col + t1.len()) =~= line.take(col) + t1);
    assert(a.skip(col + t1.len()) =~= line.skip(col));
    assert(insert_chars(a, col + t1.len(), t2) =~= line.take(col) + (t1 + t2) + line.skip(col));
}

/// Joining a line that was just broken in two gives the lines back.
pub proof fn lemma_merge_undoes_split(lines: Seq<Seq<char>>, row: int, col: int)
    requires
        0 <= row < lines.len(),
        0 <= col,
    ensures
        merge_line(split_line(lines, row, col), row) == lines,
{
    let l = lines[row];
    let k = prefix(l, col).len() as int;
    let sp = split_line(lines, row, col);
    assert(sp[row] == l.take(k));
    assert(sp[row + 1] == l.skip(k));
    assert(l.take(k) + l.skip(k) =~= l);
    assert(sp.take(row) =~= lines.take(row));
    assert(sp.skip(row + 2) =~= lines.skip(row + 1));
    assert(merge_line(sp, row) =~= lines);
}

/// Breaking a just-joined line where the join was gives the lines back.
pub proof fn lemma_split_undoes_merge(lines: Seq<Seq<char>>, row: int)
    requires
        0 <= row,
        row + 1 < lines.len(),
    ensures
        split_line(merge_line(lines, row), row, lines[row].len() as int) == lines,
{
    let m = merge_line(lines, row);
    let joined = lines[row] + lines[row + 1];
    assert(m[row] == joined);
    assert(prefix(joined, lines[row].len() as int) =~= lines[row]);
    assert(joined.take(lines[row].len() as int) =~= lines[row]);
    assert(joined.skip(lines[row].len() as int) =~= lines[row + 1]);
    assert(m.take(row) =~= lines.take(row));
    assert(m.skip(row + 1) =~= lines.skip(row + 2));
    assert(split_line(m, row, lines[row].len() as int) =~= lines);
}


/// The lines of `ls`, each followed by a line feed.
pub open spec fn terminated_lines(ls: Seq<Seq<char>>) -> Seq<char>
    decreases ls.len(),
{
    if ls.len() == 0 {
        Seq::empty()
    } else {
        terminated_lines(ls.drop_last()) + ls.last() + seq!['\n']
    }
}

/// Lines ended by line feeds are the lines joined, then a line feed.
proof fn lemma_terminated_is_joined(ls: Seq<Seq<char>>)
    requires
        ls.len() > 0,
    ensures
        terminated_lines(ls) == join_lines(ls) + seq!['\n'],
    decreases ls.len(),
{
    if ls.len() == 1 {
        assert(ls.drop_last() =~= Seq::<Seq<char>>::empty());
        assert(terminated_lines(ls.drop_last()) =~= Seq::<char>::empty());
        assert(terminated_lines(ls) == terminated_lines(ls.drop_last()) + ls.last() + seq!['\n']);
        assert(terminated_lines(ls) =~= join_lines(ls) + seq!['\n']);
    } else {
        let dl = ls.drop_last();
        lemma_terminated_is_joined(dl);
        assert(terminated_lines(ls) == terminated_lines(dl) + ls.last() + seq!['\n']);
        assert(join_lines(ls) == join_lines(dl) + seq!['\n'] + ls.last());
        assert(terminated_lines(ls) =~= join_lines(ls) + seq!['\n']);
    }
}

/// Without carriage returns, reading a text line by line loses nothing: the
/// lines ended so far, each with its line feed, then the current line, give
/// the text back.
proof fn lemma_lines_scan_keeps_text(s: Seq<char>)
    requires
        !s.contains('\r'),
    ensures
        s == terminated_lines(lines_scan(s).0) + lines_scan(s).1,
        !lines_scan(s).1.contains('\r'),
    decreases s.len(),
{
    if s.len() > 0 {
        let t = s.drop_last();
        assert(!t.contains('\r')) by {
            if t.contains('\r') {
                let i = choose|i: int| 0 <= i < t.len() && t[i] == '\r';
                assert(s[i] == '\r');
            }
        }
        lemma_lines_scan_keeps_text(t);
        let (done, cur) = lines_scan(t);
        if s.last() == '\n' {
            if cur.len() > 0 && cur.last() == '\r' {
                assert(cur.contains('\r'));
            }
            assert(strip_cr(cur) == cur);
            assert(done.push(cur).drop_last() =~= done);
            assert(s =~= terminated_lines(done.push(cur)) + Seq::<char>::empty());
        } else {
            assert(s =~= t.push(s.last()));
            assert(s =~= terminated_lines(done) + cur.push(s.last()));
            assert(!cur.push(s.last()).contains('\r')) by {
                if cur.push(s.last()).contains('\r') {
                    let i = choose|i: int| 0 <= i < cur.len() + 1 && cur.push(s.last())[i] == '\r';
                    if i < cur.len() {
                        assert(cur.contains('\r'));
                    } else {
                        assert(s[s.len() - 1] == '\r');
                        assert(s.contains('\r'));
                    }
                }
            }
        }
    }
}

/// A buffer made from a text gives that text back, when the text holds no
/// carriage return and does not end with a line feed: saving a file just
/// opened writes what it held.
pub proof fn law_string_round_trip(s: Seq<char>)
    requires
        !s.contains('\r'),
        s.len() == 0 || s.last() != '\n',
    ensures
        join_lines(string_view(s).lines) == s,
{
    lemma_lines_scan_keeps_text(s);
    let (done, cur) = lines_scan(s);
    if s.len() == 0 {
        assert(string_view(s).lines =~= seq![Seq::<char>::empty()]);
    } else {
        let (d0, c0) = lines_scan(s.drop_last());
        assert(cur == c0.push(s.last()));
        assert(lines_of(s) == done.push(cur));
        let ls = done.push(cur);
        assert(ls.drop_last() =~= done);
        if done.len() == 0 {
            assert(terminated_lines(done) =~= Seq::<char>::empty());
            assert(s =~= cur);
        } else {
            lemma_terminated_is_joined(done);
        }
    }
}


/// Whether `v` is a one-line prompt buffer that starts with the prompt text `p`,
/// frozen at its end, with the cursor after it and within the line.
pub open spec fn holds_prompt(v: TextAreaView, p: Seq<char>) -> bool {
    &&& v.lines.len() == 1
    &&& v.row == 0
    &&& v.frozen == (0int, p.len() as int)
    &&& p.len() <= v.col <= v.lines[0].len()
    &&& v.lines[0].take(p.len() as int) == p
}

/// A text without line feeds is read as one line.
proof fn lemma_lines_scan_single(s: Seq<char>)
    requires
        !s.contains('\n'),
    ensures
        lines_scan(s) == (Seq::<Seq<char>>::empty(), s),
    decreases s.len(),
{
    if s.len() > 0 {
        let t = s.drop_last();
        assert(!t.contains('\n')) by {
            if t.contains('\n') {
                let i = choose|i: int| 0 <= i < t.len() && t[i] == '\n';
                assert(s[i] == '\n');
            }
        }
        lemma_lines_scan_single(t);
        assert(s[s.len() - 1] != '\n');
        assert(t.push(s.last()) =~= s);
    }
}

/// The prompt text cannot be lost: a buffer made from a one-line prompt holds
/// it, and typing at the cursor, backspace and moving left keep it.
pub proof fn law_prompt_is_kept(v: TextAreaView, p: Seq<char>, text: Seq<char>)
    requires
        p.len() > 0,
        !p.contains('\n'),
        holds_prompt(v, p),
    ensures
        holds_prompt(prompt_view(p), p),
        holds_prompt(insert_text_result(v, v.row, v.col, text), p),
        holds_prompt(delete_before_result(v, true), p),
        holds_prompt(move_left_result(v), p),
{
    lemma_lines_scan_single(p);
    assert(lines_of(p) =~= seq![p]);
    assert(p.take(p.len() as int) =~= p);
    let l = v.lines[0];
    let c = v.col;
    assert(prefix(l, c) =~= l.take(c));
    let ins = insert_chars(l, c, text);
    assert(ins =~= l.take(c) + text + l.skip(c));
    assert(ins.take(p.len() as int) =~= l.take(p.len() as int));
    if !before_frozen(v) {
        let del = delete_chars(l, c - 1, 1);
        assert(prefix(l, c - 1) =~= l.take(c - 1));
        assert(prefix(l, c) =~= l.take(c));
        assert(del =~= l.take(c - 1) + l.skip(c));
        assert(del.take(p.len() as int) =~= l.take(p.len() as int));
    }
}


/// The number of line feeds in `s`.
pub open spec fn line_feeds(s: Seq<char>) -> nat
    decreases s.len(),
{
    if s.len() == 0 {
        0
    } else {
        line_feeds(s.drop_last()) + if s.last() == '\n' { 1nat } else { 0nat }
    }
}

/// Line feeds of two texts put together add up.
proof fn lemma_line_feeds_add(a: Seq<char>, b: Seq<char>)
    ensures
        line_feeds(a + b) == line_feeds(a) + line_feeds(b),
    decreases b.len(),
{
    if b.len() == 0 {
        assert(a + b =~= a);
    } else {
        lemma_line_feeds_add(a, b.drop_last());
        assert((a + b).drop_last() =~= a + b.drop_last());
    }
}

/// A text without line feeds counts none.
proof fn lemma_line_feeds_none(s: Seq<char>)
    requires
        !s.contains('\n'),
    ensures
        line_feeds(s) == 0,
    decreases s.len(),
{
    if s.len() > 0 {
        assert(!s.drop_last().contains('\n')) by {
            if s.drop_last().contains('\n') {
                let i = choose|i: int| 0 <= i < s.drop_last().len() && s.drop_last()[i] == '\n';
                assert(s[i] == '\n');
            }
        }
        assert(s[s.len() - 1] != '\n');
        lemma_line_feeds_none(s.drop_last());
    }
}

/// The buffer has one line more than its text has line feeds, when no line
/// itself holds a line feed: `line_count` is the number of line feeds in
/// `string` plus one.
pub proof fn law_line_count_is_line_feeds_plus_one(v: TextAreaView)
    requires
        v.lines.len() >= 1,
        forall|i: int| 0 <= i < v.lines.len() ==> !(#[trigger] v.lines[i]).contains('\n'),
    ensures
        v.lines.len() == line_feeds(join_lines(v.lines)) + 1,
    decreases v.lines.len(),
{
    let ls = v.lines;
    lemma_line_feeds_none(ls.last());
    if ls.len() == 1 {
        assert(ls.last() == ls[0]);
    } else {
        let init = TextAreaView { lines: ls.drop_last(), ..v };
        assert forall|i: int| 0 <= i < init.lines.len() implies !(#[trigger] init.lines[i]).contains('\n') by {
            assert(init.lines[i] == ls[i]);
        }
        law_line_count_is_line_feeds_plus_one(init);
        lemma_line_feeds_add(join_lines(ls.drop_last()), seq!['\n']);
        lemma_line_feeds_add(join_lines(ls.drop_last()) + seq!['\n'], ls.last());
        let nl = seq!['\n'];
        assert(nl.drop_last() =~= Seq::<char>::empty());
        assert(line_feeds(nl.drop_last()) == 0);
        assert(nl.last() == '\n');
        assert(line_feeds(nl) == 1);
    }
}

} // verus!
