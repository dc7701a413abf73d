//! Keystrokes in the main buffer: the edit or motion that each key makes, and
//! the viewport that follows the cursor.

use vstd::prelude::*;
use crate::buffer::{spaces, spaces_of, FileData, FileStatus, TextPos};
use crate::config::Config;
use crate::line::leading_spaces;
use crate::utf8::{
    byte_len, byte_pos, lemma_byte_pos_full, lemma_byte_pos_le,
    lemma_byte_pos_mono, lemma_byte_pos_zero,
};

verus! {

/// Columns taken by the row number in front of each row.
pub const PREFIX_SIZE: usize = 5;

/// Rows taken by the status bar.
pub const STATUS_SIZE: usize = 1;

/// Rows taken by the message bar.
pub const MESSAGE_SIZE: usize = 1;

#[derive(Clone, Copy, Debug, PartialEq, Eq, Structural)]
pub enum KeyCode {
    Backspace,
    Enter,
    Left,
    Right,
    Up,
    Down,
    Home,
    End,
    PageUp,
    PageDown,
    Tab,
    BackTab,
    Delete,
    Esc,
    Char(char),
    Other,
}

#[derive(Clone, Copy, Debug, PartialEq, Eq, Structural)]
pub struct KeyEvent {
    pub code: KeyCode,
    /// Whether Ctrl was held.
    pub ctrl: bool,
}

/// A count of scalar values that a line can hold.
pub open spec fn fits(n: nat) -> bool {
    n <= usize::MAX
}

/// Text, row and scalar-value column after `key` on text `ls` with the cursor
/// at row `r`, column `c`; `tab` is the tab width and `page` the viewport
/// height. A key that would make a line longer than a count can hold does
/// nothing.
pub open spec fn after_key(
    ls: Seq<Seq<char>>,
    r: int,
    c: int,
    key: KeyCode,
    tab: nat,
    page: nat,
) -> (Seq<Seq<char>>, int, int) {
    let l = ls[r];
    let n = ls.len() as int;
    match key {
        KeyCode::Backspace => {
            if c == 0 && r > 0 {
                if fits(ls[r - 1].len() + l.len()) {
                    (ls.update(r - 1, ls[r - 1] + l).remove(r), r - 1, ls[r - 1].len() as int)
                } else {
                    (ls, r, c)
                }
            } else if c > 0 {
                (ls.update(r, l.remove(c - 1)), r, c - 1)
            } else {
                (ls, r, c)
            }
        },
        KeyCode::Enter => (ls.update(r, l.take(c)).insert(r + 1, l.skip(c)), r + 1, 0),
        KeyCode::Left => {
            if c > 0 {
                (ls, r, c - 1)
            } else if r > 0 {
                (ls, r - 1, ls[r - 1].len() as int)
            } else {
                (ls, r, c)
            }
        },
        KeyCode::Right => {
            if c < l.len() {
                (ls, r, c + 1)
            } else if r < n - 1 {
                (ls, r + 1, 0)
            } else {
                (ls, r, c)
            }
        },
        KeyCode::Up => {
            if r > 0 {
                (ls, r - 1, min(c, ls[r - 1].len() as int))
            } else {
                (ls, r, c)
            }
        },
        KeyCode::Down => {
            if r < n - 1 {
                (ls, r + 1, min(c, ls[r + 1].len() as int))
            } else {
                (ls, r, c)
            }
        },
        KeyCode::PageDown => {
            let t = min(r + page, n - 1);
            (ls, t, min(c, ls[t].len() as int))
        },
        KeyCode::PageUp => {
            let t = if r > page {
                r - page
            } else {
                0
            };
            (ls, t, min(c, ls[t].len() as int))
        },
        KeyCode::Home => (ls, r, 0),
        KeyCode::End => (ls, r, l.len() as int),
        KeyCode::Tab => {
            if fits(l.len() + tab) {
                (ls.update(r, l.take(c) + spaces(tab) + l.skip(c)), r, c + tab)
            } else {
                (ls, r, c)
            }
        },
        KeyCode::BackTab => {
            let m = leading_spaces(l, tab) as int;
            (ls.update(r, l.skip(m)), r, if c > m {
                c - m
            } else {
                0
            })
        },
        KeyCode::Delete => {
            if c == l.len() && r < n - 1 {
                if fits(l.len() + ls[r + 1].len()) {
                    (ls.update(r, l + ls[r + 1]).remove(r + 1), r, c)
                } else {
                    (ls, r, c)
                }
            } else if c < l.len() {
                (ls.update(r, l.remove(c)), r, c)
            } else {
                (ls, r, c)
            }
        },
        KeyCode::Char(ch) => {
            if fits(l.len() + 1) {
                (ls.update(r, l.insert(c, ch)), r, c + 1)
            } else {
                (ls, r, c)
            }
        },
        _ => (ls, r, c),
    }
}

/// Whether `key` changes the text, in the situation of `after_key`.
pub open spec fn edits(ls: Seq<Seq<char>>, r: int, c: int, key: KeyCode, tab: nat) -> bool {
    let l = ls[r];
    let n = ls.len() as int;
    match key {
        KeyCode::Backspace => (c == 0 && r > 0 && fits(ls[r - 1].len() + l.len())) || c > 0,
        KeyCode::Enter => true,
        KeyCode::Tab => fits(l.len() + tab),
        KeyCode::BackTab => leading_spaces(l, tab) > 0,
        KeyCode::Delete => (c == l.len() && r < n - 1 && fits(l.len() + ls[r + 1].len())) || c
            < l.len(),
        KeyCode::Char(_) => fits(l.len() + 1),
        _ => false,
    }
}

pub open spec fn min(a: int, b: int) -> int {
    if a <= b {
        a
    } else {
        b
    }
}

/// Rows of text that a viewport of `size` shows (at least one).
pub open spec fn text_rows(size: TextPos) -> int {
    if size.0 > STATUS_SIZE + MESSAGE_SIZE {
        size.0 - STATUS_SIZE - MESSAGE_SIZE
    } else {
        1
    }
}

/// Columns of text that a viewport of `size` shows (at least one).
pub open spec fn text_cols(size: TextPos) -> int {
    if size.1 > PREFIX_SIZE {
        size.1 - PREFIX_SIZE
    } else {
        1
    }
}

/// First visible index, formerly `first`, once index `at` must be among the
/// `span` visible ones: moved as little as possible.
pub open spec fn scroll_to(first: int, at: int, span: int) -> int {
    if at < first {
        at
    } else if at >= first + span {
        at - (span - 1)
    } else {
        first
    }
}

fn visible_rows(size: TextPos) -> (r: usize)
    ensures
        r == text_rows(size),
{
    if size.0 > STATUS_SIZE + MESSAGE_SIZE {
        size.0 - STATUS_SIZE - MESSAGE_SIZE
    } else {
        1
    }
}

fn visible_cols(size: TextPos) -> (r: usize)
    ensures
        r == text_cols(size),
{
    if size.1 > PREFIX_SIZE {
        size.1 - PREFIX_SIZE
    } else {
        1
    }
}

fn scrolled(first: usize, at: usize, span: usize) -> (r: usize)
    requires
        span >= 1,
    ensures
        r == scroll_to(first as int, at as int, span as int),
{
    if at < first {
        at
    } else if at - first >= span {
        at - (span - 1)
    } else {
        first
    }
}

/// The fields that a keystroke in the buffer leaves alone.
pub open spec fn same_frame(a: &FileData, b: &FileData) -> bool {
    &&& a.path == b.path
    &&& a.size == b.size
    &&& a.ended == b.ended
    &&& a.redraw == b.redraw
    &&& a.prompt == b.prompt
    &&& a.message == b.message
}

/// Moves the viewport so that the cursor is inside it.
pub fn scroll(w: &mut FileData)
    requires
        old(w).wf(),
    ensures
        final(w).wf(),
        final(w).top_visible == scroll_to(
            old(w).top_visible as int,
            old(w).row(),
            text_rows(old(w).size),
        ),
        final(w).left_visible == scroll_to(
            old(w).left_visible as int,
            old(w).col(),
            text_cols(old(w).size),
        ),
        final(w).lines == old(w).lines,
        final(w).location == old(w).location,
        final(w).cursor_location == old(w).cursor_location,
        final(w).f_status == old(w).f_status,
        same_frame(old(w), final(w)),
{
    let rows = visible_rows(w.size);
    let cols = visible_cols(w.size);
    w.top_visible = scrolled(w.top_visible, w.location.0, rows);
    w.left_visible = scrolled(w.left_visible, w.cursor_location.1, cols);
}

/// Puts both cursors on row `nr`, keeping the scalar-value column where the
/// row is long enough and taking its end otherwise.
fn move_to_row(w: &mut FileData, nr: usize)
    requires
        old(w).wf(),
        nr < old(w).lines@.len(),
    ensures
        final(w).wf(),
        final(w).lines == old(w).lines,
        final(w).row() == nr,
        final(w).col() == min(old(w).col(), old(w).text()[nr as int].len() as int),
        final(w).f_status == old(w).f_status,
        final(w).top_visible == old(w).top_visible,
        final(w).left_visible == old(w).left_visible,
        same_frame(old(w), final(w)),
{
    let col = w.cursor_location.1;
    let nloc = w.lines[nr].get_char_pos(col);
    let len = w.lines[nr].char_len;
    let nc = if col <= len {
        col
    } else {
        len
    };
    w.location = TextPos(nr, nloc);
    w.cursor_location = TextPos(nr, nc);
    proof {
        assert(w.lines@[nr as int].wf());
    }
}

/// The cursor facts that every key handler starts from.
proof fn lemma_cursor_facts(w: &FileData)
    requires
        w.wf(),
    ensures
        w.text()[w.row()] == w.lines@[w.row()]@,
        w.lines@[w.row()].wf(),
        is_boundary_at(w.text()[w.row()], w.col()),
        (w.location.1 == 0) == (w.col() == 0),
        (w.location.1 == byte_len(w.text()[w.row()])) == (w.col() == w.text()[w.row()].len()),
        w.location.1 <= byte_len(w.text()[w.row()]),
        w.col() > 0 ==> byte_pos(w.text()[w.row()], w.col() - 1) < w.location.1,
        w.col() > 0 ==> is_boundary_at(w.text()[w.row()], w.col() - 1),
{
    let l = w.text()[w.row()];
    let c = w.col();
    assert(w.lines@[w.row()].wf());
    lemma_byte_pos_zero(l);
    lemma_byte_pos_full(l);
    if c > 0 {
        lemma_byte_pos_mono(l, 0, c);
        lemma_byte_pos_mono(l, c - 1, c);
    }
    if c < l.len() {
        lemma_byte_pos_mono(l, c, l.len() as int);
    }
    lemma_byte_pos_le(l, c, l.len() as int);
}

/// `f` is `o` after `key`, before scrolling.
pub open spec fn key_done(o: &FileData, f: &FileData, key: KeyCode, tab: nat) -> bool {
    let m = after_key(o.text(), o.row(), o.col(), key, tab, o.size.0 as nat);
    &&& f.wf()
    &&& f.text() == m.0
    &&& f.row() == m.1
    &&& f.col() == m.2
    &&& f.f_status == (if edits(o.text(), o.row(), o.col(), key, tab) {
        FileStatus::Edited
    } else {
        o.f_status
    })
    &&& f.top_visible == o.top_visible
    &&& f.left_visible == o.left_visible
    &&& same_frame(o, f)
}

/// Backspace: joins the row to the one above at the start of a row, else
/// removes the scalar value before the cursor.
fn key_backspace(w: &mut FileData)
    requires
        old(w).wf(),
    ensures
        key_done(old(w), final(w), KeyCode::Backspace, 0),
{
    let ghost ls = w.text();
    let ghost r = w.row();
    let ghost c = w.col();
    let ghost l = ls[r];
    let row = w.location.0;
    let loc = w.location.1;
    proof {
        lemma_cursor_facts(w);
    }
    let (prev_char_bound, _) = w.get_next_and_prev_chars();
    if loc == 0 && row > 0 {
        let prev_bytes = w.lines[row - 1].len();
        let prev_chars = w.lines[row - 1].char_len;
        let cur_chars = w.lines[row].char_len;
        proof {
            assert(w.lines@[r - 1].wf());
        }
        if prev_chars <= usize::MAX - cur_chars {
            let line = w.lines.remove(row);
            w.lines[row - 1].push_str(line.data.as_str());
            w.location = TextPos(row - 1, prev_bytes);
            w.cursor_location = TextPos(row - 1, prev_chars);
            w.f_status = FileStatus::Edited;
            proof {
                let p = ls[r - 1];
                assert(w.text() =~= ls.update(r - 1, p + l).remove(r));
                assert((p + l).take(p.len() as int) =~= p);
                lemma_byte_pos_full(p);
                assert forall|i: int| 0 <= i < w.lines@.len() implies (#[trigger] w.lines@[i]).wf() by {
                    if i >= r {
                        assert(w.lines@[i] == old(w).lines@[i + 1]);
                    }
                }
            }
        }
    } else if loc > 0 {
        w.lines[row].remove(prev_char_bound);
        w.location.1 = prev_char_bound;
        w.cursor_location.1 = w.cursor_location.1 - 1;
        w.f_status = FileStatus::Edited;
        proof {
            assert(is_boundary_at(l, c - 1));
            lemma_byte_pos_le(l, c, l.len() as int);
            assert(w.text() =~= ls.update(r, l.remove(c - 1)));
            assert(l.remove(c - 1).take(c - 1) =~= l.take(c - 1));
            assert forall|i: int| 0 <= i < w.lines@.len() implies (#[trigger] w.lines@[i]).wf() by {
                if i != r {
                    assert(w.lines@[i] == old(w).lines@[i]);
                }
            }
        }
    }
}

/// Enter: splits the row at the cursor.
fn key_enter(w: &mut FileData)
    requires
        old(w).wf(),
    ensures
        key_done(old(w), final(w), KeyCode::Enter, 0),
{
    let ghost ls = w.text();
    let ghost r = w.row();
    let ghost c = w.col();
    let ghost l = ls[r];
    let row = w.location.0;
    let loc = w.location.1;
    proof {
        lemma_cursor_facts(w);
    }
    let rest = w.lines[row].split_at(loc);
    assert(row < w.lines.len());
    w.lines.insert(row + 1, rest);
    w.location = TextPos(row + 1, 0);
    w.cursor_location = TextPos(row + 1, 0);
    w.f_status = FileStatus::Edited;
    proof {
        assert(w.text() =~= ls.update(r, l.take(c)).insert(r + 1, l.skip(c)));
        lemma_byte_pos_zero(l.skip(c));
        assert forall|i: int| 0 <= i < w.lines@.len() implies (#[trigger] w.lines@[i]).wf() by {
            if i > r + 1 {
                assert(w.lines@[i] == old(w).lines@[i - 1]);
            } else if i < r {
                assert(w.lines@[i] == old(w).lines@[i]);
            }
        }
    }
}

/// Left: one scalar value back, or to the end of the row above.
fn key_left(w: &mut FileData)
    requires
        old(w).wf(),
    ensures
        key_done(old(w), final(w), KeyCode::Left, 0),
{
    let ghost ls = w.text();
    let ghost r = w.row();
    let row = w.location.0;
    let loc = w.location.1;
    proof {
        lemma_cursor_facts(w);
    }
    let (prev_char_bound, _) = w.get_next_and_prev_chars();
    if loc > 0 {
        w.location.1 = prev_char_bound;
        w.cursor_location.1 = w.cursor_location.1 - 1;
    } else if row > 0 {
        let nloc = w.lines[row - 1].len();
        let nc = w.lines[row - 1].char_len;
        w.location = TextPos(row - 1, nloc);
        w.cursor_location = TextPos(row - 1, nc);
        proof {
            assert(w.lines@[r - 1].wf());
            lemma_byte_pos_full(ls[r - 1]);
        }
    }
}

/// Right: one scalar value on, or to the start of the row below.
fn key_right(w: &mut FileData)
    requires
        old(w).wf(),
    ensures
        key_done(old(w), final(w), KeyCode::Right, 0),
{
    let ghost ls = w.text();
    let ghost r = w.row();
    let row = w.location.0;
    let loc = w.location.1;
    let n = w.lines.len();
    proof {
        lemma_cursor_facts(w);
    }
    let (_, next_char_bound) = w.get_next_and_prev_chars();
    let len = w.lines[row].len();
    if loc < len {
        w.location.1 = next_char_bound;
        w.cursor_location.1 = w.cursor_location.1 + 1;
    } else if row < n - 1 {
        w.location = TextPos(row + 1, 0);
        w.cursor_location = TextPos(row + 1, 0);
        proof {
            lemma_byte_pos_zero(ls[r + 1]);
        }
    }
}

/// Up: the row above, keeping the scalar-value column.
fn key_up(w: &mut FileData)
    requires
        old(w).wf(),
    ensures
        key_done(old(w), final(w), KeyCode::Up, 0),
{
    let row = w.location.0;
    proof {
        lemma_cursor_facts(w);
    }
    if row > 0 {
        move_to_row(w, row - 1);
    }
}

/// Down: the row below, keeping the scalar-value column.
fn key_down(w: &mut FileData)
    requires
        old(w).wf(),
    ensures
        key_done(old(w), final(w), KeyCode::Down, 0),
{
    let row = w.location.0;
    let n = w.lines.len();
    proof {
        lemma_cursor_facts(w);
    }
    if row < n - 1 {
        move_to_row(w, row + 1);
    }
}

/// PageDown: a viewport height down, at most to the last row.
fn key_page_down(w: &mut FileData)
    requires
        old(w).wf(),
    ensures
        key_done(old(w), final(w), KeyCode::PageDown, 0),
{
    let row = w.location.0;
    let n = w.lines.len();
    proof {
        lemma_cursor_facts(w);
    }
    let page = w.size.0;
    let t = if page >= n - 1 - row {
        n - 1
    } else {
        row + page
    };
    move_to_row(w, t);
}

/// PageUp: a viewport height up, at most to the first row.
fn key_page_up(w: &mut FileData)
    requires
        old(w).wf(),
    ensures
        key_done(old(w), final(w), KeyCode::PageUp, 0),
{
    let row = w.location.0;
    proof {
        lemma_cursor_facts(w);
    }
    let page = w.size.0;
    let t = if row > page {
        row - page
    } else {
        0
    };
    move_to_row(w, t);
}

/// Home: the start of the row.
fn key_home(w: &mut FileData)
    requires
        old(w).wf(),
    ensures
        key_done(old(w), final(w), KeyCode::Home, 0),
{
    proof {
        lemma_cursor_facts(w);
    }
    w.location.1 = 0;
    w.cursor_location.1 = 0;
}

/// End: the end of the row.
fn key_end(w: &mut FileData)
    requires
        old(w).wf(),
    ensures
        key_done(old(w), final(w), KeyCode::End, 0),
{
    let ghost ls = w.text();
    let ghost r = w.row();
    let ghost l = ls[r];
    let row = w.location.0;
    proof {
        lemma_cursor_facts(w);
    }
    let nloc = w.lines[row].len();
    let nc = w.lines[row].char_len;
    w.location.1 = nloc;
    w.cursor_location.1 = nc;
    proof {
        lemma_byte_pos_full(l);
    }
}

/// Tab: `tab_size` spaces at the cursor.
fn key_tab(w: &mut FileData, tab_size: usize)
    requires
        old(w).wf(),
    ensures
        key_done(old(w), final(w), KeyCode::Tab, tab_size as nat),
{
    let ghost ls = w.text();
    let ghost r = w.row();
    let ghost c = w.col();
    let ghost l = ls[r];
    let row = w.location.0;
    let loc = w.location.1;
    proof {
        lemma_cursor_facts(w);
    }
    let tab = spaces_of(tab_size);
    if w.lines[row].char_len <= usize::MAX - tab_size {
        w.lines[row].insert_str(loc, tab.as_str());
        let nc = w.cursor_location.1 + tab_size;
        let nloc = w.lines[row].get_char_pos(nc);
        w.location.1 = nloc;
        w.cursor_location.1 = nc;
        w.f_status = FileStatus::Edited;
        proof {
            assert(w.text() =~= ls.update(r, l.take(c) + spaces(tab_size as nat) + l.skip(c)));
            assert forall|i: int| 0 <= i < w.lines@.len() implies (#[trigger] w.lines@[i]).wf() by {
                if i != r {
                    assert(w.lines@[i] == old(w).lines@[i]);
                }
            }
        }
    }
}

/// BackTab: removes up to `tab_size` spaces at the start of the row.
fn key_back_tab(w: &mut FileData, tab_size: usize)
    requires
        old(w).wf(),
    ensures
        key_done(old(w), final(w), KeyCode::BackTab, tab_size as nat),
{
    let ghost ls = w.text();
    let ghost r = w.row();
    let ghost l = ls[r];
    let row = w.location.0;
    proof {
        lemma_cursor_facts(w);
    }
    let m = w.lines[row].back_tab(tab_size);
    let nc = if w.cursor_location.1 > m {
        w.cursor_location.1 - m
    } else {
        0
    };
    let nloc = w.lines[row].get_char_pos(nc);
    w.location.1 = nloc;
    w.cursor_location.1 = nc;
    if m > 0 {
        w.f_status = FileStatus::Edited;
    }
    proof {
        assert(w.text() =~= ls.update(r, l.skip(m as int)));
        assert forall|i: int| 0 <= i < w.lines@.len() implies (#[trigger] w.lines@[i]).wf() by {
            if i != r {
                assert(w.lines@[i] == old(w).lines@[i]);
            }
        }
    }
}

/// Delete: removes the scalar value at the cursor, or joins the row below
/// at the end of a row.
fn key_delete(w: &mut FileData)
    requires
        old(w).wf(),
    ensures
        key_done(old(w), final(w), KeyCode::Delete, 0),
{
    let ghost ls = w.text();
    let ghost r = w.row();
    let ghost c = w.col();
    let ghost l = ls[r];
    let row = w.location.0;
    let loc = w.location.1;
    let n = w.lines.len();
    proof {
        lemma_cursor_facts(w);
    }
    let len = w.lines[row].len();
    if loc == len && row < n - 1 {
        let cur_chars = w.lines[row].char_len;
        let next_chars = w.lines[row + 1].char_len;
        proof {
            assert(w.lines@[r + 1].wf());
        }
        if cur_chars <= usize::MAX - next_chars {
            let next = w.lines.remove(row + 1);
            w.lines[row].push_str(next.data.as_str());
            w.f_status = FileStatus::Edited;
            proof {
                let q = ls[r + 1];
                assert(w.text() =~= ls.update(r, l + q).remove(r + 1));
                assert((l + q).take(c) =~= l.take(c));
                assert forall|i: int| 0 <= i < w.lines@.len() implies (#[trigger] w.lines@[i]).wf() by {
                    if i > r {
                        assert(w.lines@[i] == old(w).lines@[i + 1]);
                    } else if i < r {
                        assert(w.lines@[i] == old(w).lines@[i]);
                    }
                }
            }
        }
    } else if loc != len {
        w.lines[row].remove(loc);
        w.f_status = FileStatus::Edited;
        proof {
            assert(w.text() =~= ls.update(r, l.remove(c)));
            assert(l.remove(c).take(c) =~= l.take(c));
            assert forall|i: int| 0 <= i < w.lines@.len() implies (#[trigger] w.lines@[i]).wf() by {
                if i != r {
                    assert(w.lines@[i] == old(w).lines@[i]);
                }
            }
        }
    }
}

/// A character: inserted at the cursor.
fn key_char(w: &mut FileData, ch: char)
    requires
        old(w).wf(),
    ensures
        key_done(old(w), final(w), KeyCode::Char(ch), 0),
{
    let ghost ls = w.text();
    let ghost r = w.row();
    let ghost c = w.col();
    let ghost l = ls[r];
    let row = w.location.0;
    let loc = w.location.1;
    proof {
        lemma_cursor_facts(w);
    }
    if w.lines[row].char_len < usize::MAX {
        w.lines[row].insert(loc, ch);
        let nc = w.cursor_location.1 + 1;
        let nloc = w.lines[row].get_char_pos(nc);
        w.location.1 = nloc;
        w.cursor_location.1 = nc;
        w.f_status = FileStatus::Edited;
        proof {
            assert(w.text() =~= ls.update(r, l.insert(c, ch)));
            assert forall|i: int| 0 <= i < w.lines@.len() implies (#[trigger] w.lines@[i]).wf() by {
                if i != r {
                    assert(w.lines@[i] == old(w).lines@[i]);
                }
            }
        }
    }
}

/// The edit or motion of `key`, without scrolling.
fn apply_key(key: KeyCode, w: &mut FileData, tab_size: usize)
    requires
        old(w).wf(),
    ensures
        key_done(old(w), final(w), key, tab_size as nat),
{
    match key {
        KeyCode::Backspace => key_backspace(w),
        KeyCode::Enter => key_enter(w),
        KeyCode::Left => key_left(w),
        KeyCode::Right => key_right(w),
        KeyCode::Up => key_up(w),
        KeyCode::Down => key_down(w),
        KeyCode::PageDown => key_page_down(w),
        KeyCode::PageUp => key_page_up(w),
        KeyCode::Home => key_home(w),
        KeyCode::End => key_end(w),
        KeyCode::Tab => key_tab(w, tab_size),
        KeyCode::BackTab => key_back_tab(w, tab_size),
        KeyCode::Delete => key_delete(w),
        KeyCode::Char(ch) => key_char(w, ch),
        _ => {},
    }
}

/// Handles a key in the main buffer, then scrolls the viewport to the
/// cursor.
pub fn normal_input(ke: KeyEvent, w: &mut FileData, config: &Config)
    requires
        old(w).wf(),
    ensures
        final(w).wf(),
        ({
            let m = after_key(
                old(w).text(),
                old(w).row(),
                old(w).col(),
                ke.code,
                config.tab_size as nat,
                old(w).size.0 as nat,
            );
            final(w).text() == m.0 && final(w).row() == m.1 && final(w).col() == m.2
        }),
        final(w).f_status == (if edits(
            old(w).text(),
            old(w).row(),
            old(w).col(),
            ke.code,
            config.tab_size as nat,
        ) {
            FileStatus::Edited
        } else {
            old(w).f_status
        }),
        final(w).top_visible == scroll_to(
            old(w).top_visible as int,
            final(w).row(),
            text_rows(old(w).size),
        ),
        final(w).left_visible == scroll_to(
            old(w).left_visible as int,
            final(w).col(),
            text_cols(old(w).size),
        ),
        same_frame(old(w), final(w)),
{
    apply_key(ke.code, w, config.tab_size);
    scroll(w);
}

/// The scalar value with index `k` of `s` starts on a boundary.
pub open spec fn is_boundary_at(s: Seq<char>, k: int) -> bool {
    0 <= k <= s.len() && crate::utf8::is_boundary(s, byte_pos(s, k) as int)
}

} // verus!
