//! The multi-line input buffer: a list of lines with a character-addressed
//! cursor and a version counter that downstream caches use to detect
//! staleness.

use vstd::prelude::*;
use vstd::string::StrSliceExecFns;
use vstd::string::StringExecFns;
use vstd::pervasive::VecAdditionalExecFns;
use vstd::utf8::encode_utf8;
use crate::strutil::{first_at_from, lemma_first_at_eq, push_char, str_byte_len};

verus! {

/// The mathematical state of an [`InputState`]: line contents as character
/// sequences, the cursor, and the version counter.
#[verifier::ext_equal]
pub struct InputView {
    pub lines: Seq<Seq<char>>,
    pub cursor_row: int,
    pub cursor_col: int,
    pub version: int,
}

/// A well-formed input buffer: at least one line, the cursor on a line, and
/// the cursor column at most that line's length.
pub open spec fn iv_wf(v: InputView) -> bool {
    &&& v.lines.len() >= 1
    &&& 0 <= v.cursor_row < v.lines.len()
    &&& 0 <= v.cursor_col <= v.lines[v.cursor_row].len()
    &&& v.version >= 0
}

/// The buffer's full text: the lines joined by `'\n'`, first `i` lines only.
pub open spec fn iv_join(lines: Seq<Seq<char>>, i: int) -> Seq<char>
    decreases i,
{
    if i <= 0 {
        Seq::empty()
    } else if i == 1 {
        lines[0]
    } else {
        iv_join(lines, i - 1) + seq!['\n'] + lines[i - 1]
    }
}

/// The buffer's full text.
pub open spec fn iv_text(v: InputView) -> Seq<char> {
    iv_join(v.lines, v.lines.len() as int)
}

/// `s` split at every `'\n'`; always at least one (possibly empty) piece.
pub open spec fn spec_split_nl(s: Seq<char>) -> Seq<Seq<char>>
    decreases s.len(),
    via spec_split_nl_dec
{
    let d = first_at_from(s, '\n', 0);
    if d == s.len() {
        seq![s]
    } else {
        seq![s.take(d)] + spec_split_nl(s.subrange(d + 1, s.len() as int))
    }
}

#[via_fn]
proof fn spec_split_nl_dec(s: Seq<char>) {
    lemma_first_bounds(s, '\n');
}

/// `first_at_from` from zero stays within `[0, len]` and really is a hit.
pub proof fn lemma_first_bounds(s: Seq<char>, c: char)
    ensures
        0 <= first_at_from(s, c, 0) <= s.len(),
        first_at_from(s, c, 0) < s.len() ==> s[first_at_from(s, c, 0)] == c,
    decreases s.len(),
{
    lemma_first_bounds_from(s, c, 0);
}

proof fn lemma_first_bounds_from(s: Seq<char>, c: char, i: int)
    requires
        0 <= i <= s.len(),
    ensures
        i <= first_at_from(s, c, i) <= s.len(),
        first_at_from(s, c, i) < s.len() ==> s[first_at_from(s, c, i)] == c,
    decreases s.len() - i,
{
    if i < s.len() && s[i] != c {
        lemma_first_bounds_from(s, c, i + 1);
    }
}

/// Clearing resets to one empty line with the cursor at the origin.
pub open spec fn iv_clear(v: InputView) -> InputView {
    InputView { lines: seq![Seq::empty()], cursor_row: 0, cursor_col: 0, version: v.version + 1 }
}

/// Replacing the text: the new lines are the text split at newlines, with
/// the cursor at the very end.
pub open spec fn iv_set_text(v: InputView, text: Seq<char>) -> InputView {
    let ls = spec_split_nl(text);
    InputView {
        lines: ls,
        cursor_row: ls.len() - 1,
        cursor_col: ls.last().len() as int,
        version: v.version + 1,
    }
}

/// Inserting one character at the cursor.
pub open spec fn iv_insert_char(v: InputView, c: char) -> InputView {
    let line = v.lines[v.cursor_row];
    InputView {
        lines: v.lines.update(
            v.cursor_row,
            line.take(v.cursor_col) + seq![c] + line.skip(v.cursor_col),
        ),
        cursor_row: v.cursor_row,
        cursor_col: v.cursor_col + 1,
        version: v.version + 1,
    }
}

/// Breaking the current line at the cursor; the cursor moves to the start
/// of the new line holding the tail.
pub open spec fn iv_insert_newline(v: InputView) -> InputView {
    let line = v.lines[v.cursor_row];
    InputView {
        lines: v.lines.update(v.cursor_row, line.take(v.cursor_col)).insert(
            v.cursor_row + 1,
            line.skip(v.cursor_col),
        ),
        cursor_row: v.cursor_row + 1,
        cursor_col: 0,
        version: v.version + 1,
    }
}

/// One step of [`iv_insert_str`]: `'\n'` and `'\r'` break the line, any
/// other character is inserted.
pub open spec fn iv_insert_step(v: InputView, c: char) -> InputView {
    if c == '\n' || c == '\r' {
        iv_insert_newline(v)
    } else {
        iv_insert_char(v, c)
    }
}

/// Inserting a string: each character applied in order via
/// [`iv_insert_step`].
pub open spec fn iv_insert_str(v: InputView, s: Seq<char>) -> InputView
    decreases s.len(),
{
    if s.len() == 0 {
        v
    } else {
        iv_insert_str(iv_insert_step(v, s[0]), s.drop_first())
    }
}

/// Deleting the character before the cursor; at a line start the line is
/// joined onto the previous one; at the buffer origin nothing happens.
pub open spec fn iv_delete_before(v: InputView) -> InputView {
    if v.cursor_col > 0 {
        let line = v.lines[v.cursor_row];
        InputView {
            lines: v.lines.update(
                v.cursor_row,
                line.take(v.cursor_col - 1) + line.skip(v.cursor_col),
            ),
            cursor_row: v.cursor_row,
            cursor_col: v.cursor_col - 1,
            version: v.version + 1,
        }
    } else if v.cursor_row > 0 {
        let removed = v.lines[v.cursor_row];
        let prev = v.lines[v.cursor_row - 1];
        InputView {
            lines: v.lines.remove(v.cursor_row).update(v.cursor_row - 1, prev + removed),
            cursor_row: v.cursor_row - 1,
            cursor_col: prev.len() as int,
            version: v.version + 1,
        }
    } else {
        v
    }
}

/// Deleting the character after the cursor; at a line end the next line is
/// joined on; at the buffer end nothing happens.
pub open spec fn iv_delete_after(v: InputView) -> InputView {
    let line = v.lines[v.cursor_row];
    if v.cursor_col < line.len() {
        InputView {
            lines: v.lines.update(
                v.cursor_row,
                line.take(v.cursor_col) + line.skip(v.cursor_col + 1),
            ),
            cursor_row: v.cursor_row,
            cursor_col: v.cursor_col,
            version: v.version + 1,
        }
    } else if v.cursor_row + 1 < v.lines.len() {
        let next = v.lines[v.cursor_row + 1];
        InputView {
            lines: v.lines.update(v.cursor_row, line + next).remove(v.cursor_row + 1),
            cursor_row: v.cursor_row,
            cursor_col: v.cursor_col,
            version: v.version + 1,
        }
    } else {
        v
    }
}

/// Moving left: one column, or to the end of the previous line, or nothing
/// at the origin.
pub open spec fn iv_move_left(v: InputView) -> InputView {
    if v.cursor_col > 0 {
        InputView { cursor_col: v.cursor_col - 1, version: v.version + 1, ..v }
    } else if v.cursor_row > 0 {
        InputView {
            cursor_row: v.cursor_row - 1,
            cursor_col: v.lines[v.cursor_row - 1].len() as int,
            version: v.version + 1,
            ..v
        }
    } else {
        v
    }
}

/// Moving right: one column, or to the start of the next line, or nothing
/// at the end.
pub open spec fn iv_move_right(v: InputView) -> InputView {
    if v.cursor_col < v.lines[v.cursor_row].len() {
        InputView { cursor_col: v.cursor_col + 1, version: v.version + 1, ..v }
    } else if v.cursor_row + 1 < v.lines.len() {
        InputView { cursor_row: v.cursor_row + 1, cursor_col: 0, version: v.version + 1, ..v }
    } else {
        v
    }
}

/// Moving up a line, clamping the column to the new line's length.
pub open spec fn iv_move_up(v: InputView) -> InputView {
    if v.cursor_row > 0 {
        let nl = v.lines[v.cursor_row - 1].len() as int;
        InputView {
            cursor_row: v.cursor_row - 1,
            cursor_col: if v.cursor_col < nl {
                v.cursor_col
            } else {
                nl
            },
            version: v.version + 1,
            ..v
        }
    } else {
        v
    }
}

/// Moving down a line, clamping the column to the new line's length.
pub open spec fn iv_move_down(v: InputView) -> InputView {
    if v.cursor_row + 1 < v.lines.len() {
        let nl = v.lines[v.cursor_row + 1].len() as int;
        InputView {
            cursor_row: v.cursor_row + 1,
            cursor_col: if v.cursor_col < nl {
                v.cursor_col
            } else {
                nl
            },
            version: v.version + 1,
            ..v
        }
    } else {
        v
    }
}

/// The raw multi-line editable input buffer.
///
/// `lines` always holds at least one line; `cursor_row`/`cursor_col` address
/// a character position (column `n` of an `n`-character line is the end).
#[derive(Debug)]
pub struct InputState {
    pub lines: Vec<String>,
    /// Line index of the cursor.
    pub cursor_row: usize,
    /// Character (not byte) index of the cursor within its line.
    pub cursor_col: usize,
    /// Monotonically increasing counter, bumped on every content or cursor
    /// change so downstream caches can detect staleness cheaply.
    pub version: u64,
}

impl View for InputState {
    type V = InputView;

    open spec fn view(&self) -> InputView {
        InputView {
            lines: self.lines.deep_view(),
            cursor_row: self.cursor_row as int,
            cursor_col: self.cursor_col as int,
            version: self.version as int,
        }
    }
}

impl InputState {
    /// A fresh buffer: one empty line, cursor at the origin, version zero.
    pub fn new() -> (r: Self)
        ensures
            r@.lines =~~= seq![Seq::<char>::empty()],
            r@.cursor_row == 0,
            r@.cursor_col == 0,
            r@.version == 0,
            iv_wf(r@),
    {
        let mut lines: Vec<String> = Vec::new();
        lines.push(String::new());
        let r = InputState { lines, cursor_row: 0, cursor_col: 0, version: 0 };
        proof {
            assert(r@.lines =~~= seq![Seq::<char>::empty()]);
        }
        r
    }

    /// The whole buffer as one string, lines joined by `'\n'`.
    pub fn text(&self) -> (r: String)
        requires
            iv_wf(self@),
        ensures
            r@ == iv_text(self@),
    {
        let mut out = String::new();
        let n = self.lines.len();
        let mut i: usize = 0;
        while i < n
            invariant
                0 <= i <= n,
                n == self@.lines.len(),
                iv_wf(self@),
                out@ == iv_join(self@.lines, i as int),
            decreases n - i,
        {
            if i > 0 {
                push_char(&mut out, '\n');
            }
            out.append(self.lines[i].as_str());
            i = i + 1;
        }
        out
    }

    /// True only for the pristine shape: a single empty line.
    pub fn is_empty(&self) -> (r: bool)
        requires
            iv_wf(self@),
        ensures
            r == (self@.lines.len() == 1 && self@.lines[0].len() == 0),
    {
        self.lines.len() == 1 && self.lines[0].as_str().is_empty()
    }

    /// Resets to a single empty line with the cursor at the origin.
    pub fn clear(&mut self)
        requires
            iv_wf(old(self)@),
            old(self).version < u64::MAX,
        ensures
            final(self)@ == iv_clear(old(self)@),
            iv_wf(final(self)@),
    {
        let mut lines: Vec<String> = Vec::new();
        lines.push(String::new());
        self.lines = lines;
        self.cursor_row = 0;
        self.cursor_col = 0;
        self.version = self.version + 1;
        proof {
            assert(self@ =~~= iv_clear(old(self)@));
        }
    }

    /// Replaces the whole buffer with `text`, splitting at `'\n'`, and puts
    /// the cursor at the end of the last line.
    pub fn set_text(&mut self, text: &str)
        requires
            iv_wf(old(self)@),
            old(self).version < u64::MAX,
        ensures
            final(self)@ == iv_set_text(old(self)@, text@),
            iv_wf(final(self)@),
    {
        let n = text.unicode_len();
        let mut done: Vec<String> = Vec::new();
        let mut cur = String::new();
        let ghost mut start: int = 0;
        proof {
            assert(done.deep_view() =~~= Seq::<Seq<char>>::empty());
            assert(text@.subrange(0, n as int) =~= text@);
            assert(done.deep_view() + spec_split_nl(text@) =~~= spec_split_nl(text@));
        }
        let mut i: usize = 0;
        while i < n
            invariant
                0 <= start <= i <= n,
                n == text@.len(),
                cur@ == text@.subrange(start, i as int),
                forall|j: int| start <= j < i ==> text@[j] != '\n',
                spec_split_nl(text@) =~~= done.deep_view() + spec_split_nl(
                    text@.subrange(start, n as int),
                ),
            decreases n - i,
        {
            let c = text.get_char(i);
            if c == '\n' {
                let ghost rest = text@.subrange(start, n as int);
                proof {
                    lemma_first_at_eq(rest, '\n', i - start);
                    assert(rest.take(i - start) =~= cur@);
                    assert(rest.subrange(i - start + 1, rest.len() as int) =~= text@.subrange(
                        i + 1,
                        n as int,
                    ));
                }
                let ghost pre = done.deep_view();
                done.push(cur);
                proof {
                    assert(done.deep_view() =~~= pre.push(cur@));
                    assert(spec_split_nl(text@) =~~= done.deep_view() + spec_split_nl(
                        text@.subrange(i + 1, n as int),
                    ));
                }
                cur = String::new();
                proof {
                    start = i + 1;
                    assert(cur@ =~= text@.subrange(start, i + 1));
                }
            } else {
                push_char(&mut cur, c);
                proof {
                    assert(cur@ =~= text@.subrange(start, i + 1));
                }
            }
            i = i + 1;
        }
        let ghost rest = text@.subrange(start, n as int);
        proof {
            lemma_first_at_eq(rest, '\n', n - start);
            assert(rest.take(rest.len() as int) =~= rest);
            assert(rest =~= cur@);
        }
        let last_len = cur.as_str().unicode_len();
        let ghost pre = done.deep_view();
        done.push(cur);
        proof {
            assert(done.deep_view() =~~= pre.push(rest));
            assert(spec_split_nl(text@) =~~= done.deep_view());
        }
        let rows = done.len();
        self.lines = done;
        self.cursor_row = rows - 1;
        self.cursor_col = last_len;
        self.version = self.version + 1;
        proof {
            assert(self@ =~~= iv_set_text(old(self)@, text@));
        }
    }

    /// Inserts `c` at the cursor and moves the cursor past it.
    pub fn insert_char(&mut self, c: char)
        requires
            iv_wf(old(self)@),
            old(self).version < u64::MAX,
            old(self)@.lines[old(self)@.cursor_row].len() < usize::MAX,
        ensures
            final(self)@ == iv_insert_char(old(self)@, c),
            iv_wf(final(self)@),
    {
        let row = self.cursor_row;
        let col = self.cursor_col;
        let len = self.lines[row].as_str().unicode_len();
        let mut new_line = self.lines[row].as_str().substring_char(0, col).to_owned();
        push_char(&mut new_line, c);
        let tail = self.lines[row].as_str().substring_char(col, len).to_owned();
        new_line.append(tail.as_str());
        self.lines.set(row, new_line);
        self.cursor_col = col + 1;
        self.version = self.version + 1;
        proof {
            let o = old(self)@;
            let line = o.lines[o.cursor_row];
            assert(new_line@ =~= line.take(o.cursor_col) + seq![c] + line.skip(o.cursor_col));
            assert(self@.lines =~~= iv_insert_char(o, c).lines);
            assert(self@ =~~= iv_insert_char(o, c));
        }
    }

    /// Breaks the current line at the cursor; the cursor moves to the start
    /// of the new line that holds the tail.
    pub fn insert_newline(&mut self)
        requires
            iv_wf(old(self)@),
            old(self).version < u64::MAX,
        ensures
            final(self)@ == iv_insert_newline(old(self)@),
            iv_wf(final(self)@),
    {
        let row = self.cursor_row;
        let col = self.cursor_col;
        let nrows = self.lines.len();
        let len = self.lines[row].as_str().unicode_len();
        let left = self.lines[row].as_str().substring_char(0, col).to_owned();
        let rest = self.lines[row].as_str().substring_char(col, len).to_owned();
        self.lines.set(row, left);
        self.cursor_row = row + 1;
        self.lines.insert(row + 1, rest);
        self.cursor_col = 0;
        self.version = self.version + 1;
        proof {
            let o = old(self)@;
            assert(self@.lines =~~= iv_insert_newline(o).lines);
            assert(self@ =~~= iv_insert_newline(o));
        }
    }

    /// Inserts every character of `s` in order; `'\n'` and `'\r'` each break
    /// the line.
    pub fn insert_str(&mut self, s: &str)
        requires
            iv_wf(old(self)@),
            old(self).version + s@.len() <= u64::MAX,
            old(self)@.lines[old(self)@.cursor_row].len() + s@.len() < usize::MAX,
        ensures
            final(self)@ == iv_insert_str(old(self)@, s@),
            iv_wf(final(self)@),
    {
        let n = s.unicode_len();
        proof {
            assert(s@.skip(0) =~= s@);
        }
        let mut i: usize = 0;
        while i < n
            invariant
                0 <= i <= n,
                n == s@.len(),
                iv_wf(self@),
                old(self)@.version + n <= u64::MAX,
                self@.version == old(self)@.version + i,
                self@.lines[self@.cursor_row].len() + (n - i) <= usize::MAX,
                iv_insert_str(old(self)@, s@) == iv_insert_str(self@, s@.skip(i as int)),
            decreases n - i,
        {
            let ghost pre = self@;
            let c = s.get_char(i);
            proof {
                assert(s@.skip(i as int)[0] == s@[i as int]);
                assert(s@.skip(i as int).drop_first() =~= s@.skip(i + 1));
            }
            if c == '\n' || c == '\r' {
                self.insert_newline();
            } else {
                self.insert_char(c);
            }
            proof {
                assert(iv_insert_step(pre, c) == self@);
            }
            i = i + 1;
        }
        proof {
            assert(s@.skip(n as int) =~= Seq::<char>::empty());
        }
    }

    /// Deletes the character before the cursor, joining onto the previous
    /// line at a line start; a no-op at the buffer origin.
    pub fn delete_char_before(&mut self)
        requires
            iv_wf(old(self)@),
            old(self).version < u64::MAX,
        ensures
            final(self)@ == iv_delete_before(old(self)@),
            iv_wf(final(self)@),
    {
        let row = self.cursor_row;
        let col = self.cursor_col;
        if col > 0 {
            let len = self.lines[row].as_str().unicode_len();
            let mut new_line = self.lines[row].as_str().substring_char(0, col - 1).to_owned();
            let tail = self.lines[row].as_str().substring_char(col, len).to_owned();
            new_line.append(tail.as_str());
            self.lines.set(row, new_line);
            self.cursor_col = col - 1;
            self.version = self.version + 1;
            proof {
                let o = old(self)@;
                let line = o.lines[o.cursor_row];
                assert(new_line@ =~= line.take(o.cursor_col - 1) + line.skip(o.cursor_col));
                assert(self@.lines =~~= iv_delete_before(o).lines);
                assert(self@ =~~= iv_delete_before(o));
            }
        } else if row > 0 {
            let removed = self.lines.remove(row);
            self.cursor_row = row - 1;
            let prev_len = self.lines[row - 1].as_str().unicode_len();
            self.cursor_col = prev_len;
            let mut joined = self.lines[row - 1].clone();
            joined.append(removed.as_str());
            self.lines.set(row - 1, joined);
            self.version = self.version + 1;
            proof {
                let o = old(self)@;
                assert(self@.lines =~~= iv_delete_before(o).lines);
                assert(self@ =~~= iv_delete_before(o));
            }
        }
    }

    /// Deletes the character after the cursor, joining the next line on at
    /// a line end; a no-op at the buffer end.
    pub fn delete_char_after(&mut self)
        requires
            iv_wf(old(self)@),
            old(self).version < u64::MAX,
        ensures
            final(self)@ == iv_delete_after(old(self)@),
            iv_wf(final(self)@),
    {
        let row = self.cursor_row;
        let col = self.cursor_col;
        let nrows = self.lines.len();
        let len = self.lines[row].as_str().unicode_len();
        if col < len {
            let mut new_line = self.lines[row].as_str().substring_char(0, col).to_owned();
            let tail = self.lines[row].as_str().substring_char(col + 1, len).to_owned();
            new_line.append(tail.as_str());
            self.lines.set(row, new_line);
            self.version = self.version + 1;
            proof {
                let o = old(self)@;
                let line = o.lines[o.cursor_row];
                assert(new_line@ =~= line.take(o.cursor_col) + line.skip(o.cursor_col + 1));
                assert(self@.lines =~~= iv_delete_after(o).lines);
                assert(self@ =~~= iv_delete_after(o));
            }
        } else if row + 1 < nrows {
            let next = self.lines.remove(row + 1);
            let mut joined = self.lines[row].clone();
            joined.append(next.as_str());
            self.lines.set(row, joined);
            self.version = self.version + 1;
            proof {
                let o = old(self)@;
                assert(self@.lines =~~= iv_delete_after(o).lines);
                assert(self@ =~~= iv_delete_after(o));
            }
        }
    }

    /// Moves the cursor one position left, wrapping to the previous line's
    /// end; a no-op at the origin.
    pub fn move_left(&mut self)
        requires
            iv_wf(old(self)@),
            old(self).version < u64::MAX,
        ensures
            final(self)@ == iv_move_left(old(self)@),
            iv_wf(final(self)@),
    {
        if self.cursor_col > 0 {
            self.cursor_col = self.cursor_col - 1;
            self.version = self.version + 1;
            proof {
                assert(self@ =~~= iv_move_left(old(self)@));
            }
        } else if self.cursor_row > 0 {
            self.cursor_row = self.cursor_row - 1;
            self.cursor_col = self.lines[self.cursor_row].as_str().unicode_len();
            self.version = self.version + 1;
            proof {
                assert(self@ =~~= iv_move_left(old(self)@));
            }
        }
    }

    /// Moves the cursor one position right, wrapping to the next line's
    /// start; a no-op at the end.
    pub fn move_right(&mut self)
        requires
            iv_wf(old(self)@),
            old(self).version < u64::MAX,
        ensures
            final(self)@ == iv_move_right(old(self)@),
            iv_wf(final(self)@),
    {
        let nrows = self.lines.len();
        let len = self.lines[self.cursor_row].as_str().unicode_len();
        if self.cursor_col < len {
            self.cursor_col = self.cursor_col + 1;
            self.version = self.version + 1;
            proof {
                assert(self@ =~~= iv_move_right(old(self)@));
            }
        } else if self.cursor_row + 1 < nrows {
            self.cursor_row = self.cursor_row + 1;
            self.cursor_col = 0;
            self.version = self.version + 1;
            proof {
                assert(self@ =~~= iv_move_right(old(self)@));
            }
        }
    }

    /// Moves the cursor up a line, clamping the column; a no-op on the
    /// first line.
    pub fn move_up(&mut self)
        requires
            iv_wf(old(self)@),
            old(self).version < u64::MAX,
        ensures
            final(self)@ == iv_move_up(old(self)@),
            iv_wf(final(self)@),
    {
        if self.cursor_row > 0 {
            self.cursor_row = self.cursor_row - 1;
            let len = self.lines[self.cursor_row].as_str().unicode_len();
            if self.cursor_col > len {
                self.cursor_col = len;
            }
            self.version = self.version + 1;
            proof {
                assert(self@ =~~= iv_move_up(old(self)@));
            }
        }
    }

    /// Moves the cursor down a line, clamping the column; a no-op on the
    /// last line.
    pub fn move_down(&mut self)
        requires
            iv_wf(old(self)@),
            old(self).version < u64::MAX,
        ensures
            final(self)@ == iv_move_down(old(self)@),
            iv_wf(final(self)@),
    {
        let nrows = self.lines.len();
        if self.cursor_row + 1 < nrows {
            self.cursor_row = self.cursor_row + 1;
            let len = self.lines[self.cursor_row].as_str().unicode_len();
            if self.cursor_col > len {
                self.cursor_col = len;
            }
            self.version = self.version + 1;
            proof {
                assert(self@ =~~= iv_move_down(old(self)@));
            }
        }
    }

    /// Moves the cursor to the start of its line; always counts as a change.
    pub fn move_home(&mut self)
        requires
            iv_wf(old(self)@),
            old(self).version < u64::MAX,
        ensures
            final(self)@.cursor_col == 0,
            final(self)@.cursor_row == old(self)@.cursor_row,
            final(self)@.lines == old(self)@.lines,
            final(self)@.version == old(self)@.version + 1,
            iv_wf(final(self)@),
    {
        self.cursor_col = 0;
        self.version = self.version + 1;
    }

    /// Moves the cursor to the end of its line; always counts as a change.
    pub fn move_end(&mut self)
        requires
            iv_wf(old(self)@),
            old(self).version < u64::MAX,
        ensures
            final(self)@.cursor_col == old(self)@.lines[old(self)@.cursor_row].len(),
            final(self)@.cursor_row == old(self)@.cursor_row,
            final(self)@.lines == old(self)@.lines,
            final(self)@.version == old(self)@.version + 1,
            iv_wf(final(self)@),
    {
        self.cursor_col = self.lines[self.cursor_row].as_str().unicode_len();
        self.version = self.version + 1;
    }

    /// The number of lines, saturated to `u16::MAX`.
    pub fn line_count(&self) -> (r: u16)
        ensures
            r == if self@.lines.len() > u16::MAX {
                u16::MAX as int
            } else {
                self@.lines.len() as int
            },
    {
        let n = self.lines.len();
        if n > 65535 {
            65535u16
        } else {
            n as u16
        }
    }
}

impl Default for InputState {
    /// The same pristine buffer that [`InputState::new`] builds.
    fn default() -> (r: Self)
        ensures
            r@.lines =~~= seq![Seq::<char>::empty()],
            r@.cursor_row == 0,
            r@.cursor_col == 0,
            r@.version == 0,
            iv_wf(r@),
    {
        InputState::new()
    }
}

/// The byte index within `s` at which character number `char_idx` starts,
/// or `s`'s byte length when `char_idx` is past the end: the UTF-8 encoded
/// length of the first `min(char_idx, len)` characters.
pub fn char_to_byte_index(s: &str, char_idx: usize) -> (r: usize)
    ensures
        r == encode_utf8(
            s@.take(if char_idx as int <= s@.len() {
                char_idx as int
            } else {
                s@.len() as int
            }),
        ).len(),
{
    let n = s.unicode_len();
    let byte_len = str_byte_len(s);
    proof {
        lemma_encode_take_le(s@, s@.len() as int);
        assert(s@.take(s@.len() as int) =~= s@);
    }
    let m = if char_idx <= n {
        char_idx
    } else {
        n
    };
    let mut total: usize = 0;
    let mut i: usize = 0;
    while i < m
        invariant
            0 <= i <= m <= n,
            n == s@.len(),
            byte_len == encode_utf8(s@).len(),
            total == encode_utf8(s@.take(i as int)).len(),
        decreases m - i,
    {
        let c = s.get_char(i);
        let v: u32 = c as u32;
        let w: usize = if v < 0x80 {
            1
        } else if v < 0x800 {
            2
        } else if v < 0x10000 {
            3
        } else {
            4
        };
        proof {
            vstd::utf8::char_is_scalar(c);
            lemma_encode_take_succ(s@, i as int);
            lemma_encode_take_le(s@, i + 1);
            assert(encode_utf8(s@.take(i + 1)).len() == total + w);
        }
        total = total + w;
        i = i + 1;
    }
    total
}

/// Encoding one more character appends that character's encoding.
pub proof fn lemma_encode_take_succ(s: Seq<char>, i: int)
    requires
        0 <= i < s.len(),
    ensures
        encode_utf8(s.take(i + 1)) == encode_utf8(s.take(i)) + vstd::utf8::encode_scalar(
            s[i] as u32,
        ),
    decreases i,
{
    if i == 0 {
        assert(s.take(1)[0] == s[0]);
        assert(s.take(1).drop_first() =~= s.take(0));
        assert(encode_utf8(s.take(1)) =~= vstd::utf8::encode_scalar(s[0] as u32) + encode_utf8(
            s.take(0),
        ));
        assert(encode_utf8(s.take(0)) =~= Seq::<u8>::empty());
        assert(encode_utf8(s.take(1)) =~= encode_utf8(s.take(0)) + vstd::utf8::encode_scalar(
            s[0] as u32,
        ));
    } else {
        lemma_encode_take_succ(s.drop_first(), i - 1);
        assert(s.take(i + 1)[0] == s[0]);
        assert(s.take(i + 1).drop_first() =~= s.drop_first().take(i));
        assert(s.take(i)[0] == s[0]);
        assert(s.take(i).drop_first() =~= s.drop_first().take(i - 1));
        assert(s.drop_first()[i - 1] == s[i]);
        assert(encode_utf8(s.take(i + 1)) =~= encode_utf8(s.take(i)) + vstd::utf8::encode_scalar(
            s[i] as u32,
        ));
    }
}

/// A prefix never encodes to more bytes than the whole.
pub proof fn lemma_encode_take_le(s: Seq<char>, i: int)
    requires
        0 <= i <= s.len(),
    ensures
        encode_utf8(s.take(i)).len() <= encode_utf8(s).len(),
    decreases s.len() - i,
{
    if i < s.len() {
        lemma_encode_take_succ(s, i);
        lemma_encode_take_le(s, i + 1);
    } else {
        assert(s.take(i) =~= s);
    }
}

} // verus!
