//! What the screen shows: the status bar, the numbered rows of the viewport,
//! the message bar and the cursor, or the open prompt. Painting them is left
//! to the caller.

use vstd::prelude::*;
use crate::buffer::{FileData, FileStatus, Prompt};
use crate::editor::{PREFIX_SIZE, STATUS_SIZE, MESSAGE_SIZE};
use crate::strings::{chars_of, decimal, push_decimal, string_of, string_push, string_push_str};
use crate::line::Line;

verus! {

/// Whether the render task stops, skips this tick, or paints.
#[derive(Clone, Copy, Debug, PartialEq, Eq, Structural)]
pub enum Refresh {
    Stop,
    Skip,
    Paint,
}

/// What the main view shows.
#[derive(Debug)]
pub struct Frame {
    pub status: String,
    /// The text rows, then a `~` for each row past the end of the text.
    pub rows: Vec<String>,
    pub message: Option<String>,
    /// Screen column of the cursor.
    pub cursor_col: usize,
    /// Screen row of the cursor.
    pub cursor_row: usize,
}

/// What a prompt shows on the bottom row.
#[derive(Debug)]
pub struct PromptView {
    pub label: String,
    pub input: String,
    pub cursor_col: usize,
    pub row: usize,
}

pub open spec fn sat_sub(a: int, b: int) -> int {
    if a > b {
        a - b
    } else {
        0
    }
}

/// `n` in decimal, padded with zeros to three digits.
pub open spec fn row_number(n: nat) -> Seq<char> {
    Seq::new(sat_sub(3, decimal(n).len() as int) as nat, |i: int| '0') + decimal(n)
}

/// At most `n` scalar values of `l`, from index `from` on.
pub open spec fn window(l: Seq<char>, from: int, n: int) -> Seq<char> {
    let rest = if from <= l.len() {
        l.skip(from)
    } else {
        Seq::empty()
    };
    if n <= rest.len() {
        rest.take(n)
    } else {
        rest
    }
}

/// The name in the status bar: the file and whether it has unsaved edits.
pub open spec fn file_label(file: Option<Seq<char>>, edited: bool) -> Seq<char> {
    match file {
        Some(f) => "file: "@ + f + (if edited {
            "*"@
        } else {
            " "@
        }),
        None => "No file selected"@,
    }
}

/// The status bar on a screen `width` wide: the file label, then, where it
/// fits, spaces and the clock.
pub open spec fn status_text(label: Seq<char>, clock: Seq<char>, width: int) -> Seq<char> {
    let time = "time: "@ + clock;
    let l = time.len() + 2;
    window(label, 0, width) + if label.len() + l < width {
        Seq::new((width - l + 1 - label.len()) as nat, |i: int| ' ') + time
    } else {
        Seq::empty()
    }
}

/// Rows of text shown on a screen `height` rows tall.
pub open spec fn shown_rows(height: int) -> int {
    sat_sub(height, (STATUS_SIZE + MESSAGE_SIZE) as int)
}

/// Text rows shown, starting at row `top` of `n` rows.
pub open spec fn text_count(height: int, n: int, top: int) -> int {
    let avail = sat_sub(n, top);
    if shown_rows(height) <= avail {
        shown_rows(height)
    } else {
        avail
    }
}

fn sub_or_zero(a: usize, b: usize) -> (r: usize)
    ensures
        r == sat_sub(a as int, b as int),
{
    if a > b {
        a - b
    } else {
        0
    }
}

fn push_row_number(s: &mut String, n: usize)
    ensures
        final(s)@ == old(s)@ + row_number(n as nat),
{
    let mut digits = String::new();
    push_decimal(&mut digits, n);
    let len = chars_of(digits.as_str()).len();
    let pad = sub_or_zero(3, len);
    let mut i: usize = 0;
    let ghost start = s@;
    while i < pad
        invariant
            i <= pad,
            s@ == start + Seq::new(i as nat, |k: int| '0'),
        decreases pad - i,
    {
        string_push(s, '0');
        i = i + 1;
        assert(s@ =~= start + Seq::new(i as nat, |k: int| '0'));
    }
    string_push_str(s, digits.as_str());
    assert(s@ =~= old(s)@ + row_number(n as nat));
}

/// At most `n` scalar values of `l`, from index `from` on.
fn window_of(l: &Line, from: usize, n: usize) -> (r: String)
    ensures
        r@ == window(l@, from as int, n as int),
{
    let chars = chars_of(l.data.as_str());
    let mut out: Vec<char> = Vec::new();
    let mut i: usize = from;
    let ghost rest = if from <= chars@.len() {
        chars@.skip(from as int)
    } else {
        Seq::empty()
    };
    while i < chars.len() && out.len() < n
        invariant
            chars@ == l@,
            from <= i,
            i <= chars@.len() || i == from,
            i <= chars@.len() ==> out@ == chars@.subrange(from as int, i as int),
            i > chars@.len() ==> out@.len() == 0,
            out@.len() <= n,
            rest == (if from <= chars@.len() {
                chars@.skip(from as int)
            } else {
                Seq::<char>::empty()
            }),
        decreases chars@.len() - i,
    {
        out.push(chars[i]);
        i = i + 1;
        assert(out@ =~= chars@.subrange(from as int, i as int));
    }
    proof {
        if from <= chars@.len() {
            if out@.len() == n {
                assert(out@ =~= rest.take(n as int));
            } else {
                assert(out@ =~= rest);
            }
        } else {
            assert(out@ =~= rest);
        }
    }
    string_of(&out)
}

impl FileData {
    /// Whether the render task stops, skips this tick, or paints.
    pub fn refresh_step(&self) -> (r: Refresh)
        ensures
            self.ended ==> r == Refresh::Stop,
            !self.ended && !self.redraw ==> r == Refresh::Skip,
            !self.ended && self.redraw ==> r == Refresh::Paint,
    {
        if self.ended {
            Refresh::Stop
        } else if !self.redraw {
            Refresh::Skip
        } else {
            Refresh::Paint
        }
    }

    /// Records that the screen shows the current state.
    pub fn painted(&mut self)
        ensures
            !final(self).redraw,
            final(self).lines == old(self).lines,
            final(self).location == old(self).location,
            final(self).cursor_location == old(self).cursor_location,
            final(self).ended == old(self).ended,
            final(self).prompt == old(self).prompt,
            final(self).f_status == old(self).f_status,
            final(self).size == old(self).size,
            final(self).top_visible == old(self).top_visible,
            final(self).left_visible == old(self).left_visible,
            final(self).path == old(self).path,
            final(self).message == old(self).message,
    {
        self.redraw = false;
    }
}

/// The text of an optional string.
pub open spec fn opt_view(o: &Option<String>) -> Option<Seq<char>> {
    match o {
        Some(f) => Some(f@),
        None => None,
    }
}

/// The status bar for the file `file` on a screen `width` wide, with the
/// clock reading `clock`.
#[verifier::rlimit(40)]
pub fn status_bar(file: &Option<String>, edited: bool, clock: &str, width: usize) -> (r: String)
    ensures
        r@ == status_text(file_label(opt_view(file), edited), clock@, width as int),
{
    let mut label = String::new();
    match file {
        Some(f) => {
            string_push_str(&mut label, "file: ");
            string_push_str(&mut label, f.as_str());
            if edited {
                string_push_str(&mut label, "*");
            } else {
                string_push_str(&mut label, " ");
            }
        },
        None => {
            string_push_str(&mut label, "No file selected");
        },
    }
    assert(label@ =~= file_label(opt_view(file), edited));
    let label = Line::from_string(label);
    let mut out = window_of(&label, 0, width);
    let mut time = String::new();
    string_push_str(&mut time, "time: ");
    string_push_str(&mut time, clock);
    let ghost tv = "time: "@ + clock@;
    assert(time@ =~= tv);
    let tn = chars_of(time.as_str()).len();
    let fl = label.char_len;
    if tn < usize::MAX - 2 && fl < width && tn + 2 < width - fl {
        let pad = width - (tn + 2) + 1 - fl;
        let mut i: usize = 0;
        let ghost start = out@;
        while i < pad
            invariant
                i <= pad,
                out@ == start + Seq::new(i as nat, |k: int| ' '),
            decreases pad - i,
        {
            string_push(&mut out, ' ');
            i = i + 1;
            assert(out@ =~= start + Seq::new(i as nat, |k: int| ' '));
        }
        string_push_str(&mut out, time.as_str());
        assert(out@ =~= status_text(label@, clock@, width as int));
    } else {
        assert(out@ =~= status_text(label@, clock@, width as int));
    }
    out
}

/// The main view of `w` on its screen, with the file `file` in the status bar
/// and the clock reading `clock`.
pub fn frame(w: &FileData, file: &Option<String>, clock: &str) -> (r: Frame)
    requires
        w.wf(),
    ensures
        r.status@ == status_text(
            file_label(opt_view(file), w.f_status == FileStatus::Edited),
            clock@,
            w.size.1 as int,
        ),
        r.rows@.len() == if text_count(w.size.0 as int, w.lines@.len() as int, w.top_visible as int)
            >= sat_sub(w.size.0 as int, (STATUS_SIZE + 1 + MESSAGE_SIZE) as int) {
            text_count(w.size.0 as int, w.lines@.len() as int, w.top_visible as int)
        } else {
            sat_sub(w.size.0 as int, (STATUS_SIZE + 1 + MESSAGE_SIZE) as int)
        },
        forall|i: int|
            0 <= i < text_count(w.size.0 as int, w.lines@.len() as int, w.top_visible as int) ==> (
            #[trigger] r.rows@[i])@ == row_number((w.top_visible + i) as nat) + "| "@ + window(
                w.lines@[w.top_visible + i]@,
                w.left_visible as int,
                sat_sub(w.size.1 as int, PREFIX_SIZE as int),
            ),
        forall|i: int|
            text_count(w.size.0 as int, w.lines@.len() as int, w.top_visible as int) <= i
                < r.rows@.len() ==> (#[trigger] r.rows@[i])@ == "~"@,
        r.message matches Some(t) ==> t@ == w.message.text@,
        w.cursor_location.1 + PREFIX_SIZE <= usize::MAX ==> r.cursor_col == sat_sub(
            (w.cursor_location.1 + PREFIX_SIZE) as int,
            w.left_visible as int,
        ),
        r.cursor_row == sat_sub(w.location.0 as int, w.top_visible as int) + STATUS_SIZE,
{
    let width = w.size.1;
    let status = status_bar(file, w.f_status == FileStatus::Edited, clock, width);
    let shown = sub_or_zero(w.size.0, STATUS_SIZE + MESSAGE_SIZE);
    let avail = sub_or_zero(w.lines.len(), w.top_visible);
    let count = if shown <= avail {
        shown
    } else {
        avail
    };
    let cols = sub_or_zero(width, PREFIX_SIZE);
    let mut rows: Vec<String> = Vec::new();
    let mut i: usize = 0;
    while i < count
        invariant
            i <= count,
            count == text_count(w.size.0 as int, w.lines@.len() as int, w.top_visible as int),
            count > 0 ==> w.top_visible + count <= w.lines.len(),
            cols == sat_sub(w.size.1 as int, PREFIX_SIZE as int),
            rows@.len() == i,
            forall|j: int|
                0 <= j < i ==> (#[trigger] rows@[j])@ == row_number((w.top_visible + j) as nat) + "| "@
                    + window(w.lines@[w.top_visible + j]@, w.left_visible as int, cols as int),
        decreases count - i,
    {
        let idx = w.top_visible + i;
        let mut row = String::new();
        push_row_number(&mut row, idx);
        string_push_str(&mut row, "| ");
        let text = window_of(&w.lines[idx], w.left_visible, cols);
        string_push_str(&mut row, text.as_str());
        rows.push(row);
        i = i + 1;
    }
    let fill_end = sub_or_zero(w.size.0, STATUS_SIZE + 1 + MESSAGE_SIZE);
    while i < fill_end
        invariant
            count <= i,
            i <= fill_end || i == count,
            count > 0 ==> w.top_visible + count <= w.lines.len(),
            rows@.len() == i,
            forall|j: int|
                0 <= j < count ==> (#[trigger] rows@[j])@ == row_number((w.top_visible + j) as nat) + "| "@
                    + window(w.lines@[w.top_visible + j]@, w.left_visible as int, cols as int),
            forall|j: int| count <= j < i ==> (#[trigger] rows@[j])@ == "~"@,
        decreases fill_end - i,
    {
        let mut tilde = String::new();
        string_push_str(&mut tilde, "~");
        rows.push(tilde);
        i = i + 1;
    }
    let message = match w.message.show() {
        Some(t) => Some(t.to_owned()),
        None => None,
    };
    let cursor_col = if w.cursor_location.1 <= usize::MAX - PREFIX_SIZE {
        sub_or_zero(w.cursor_location.1 + PREFIX_SIZE, w.left_visible)
    } else {
        usize::MAX
    };
    let cursor_row = sub_or_zero(w.location.0, w.top_visible) + STATUS_SIZE;
    Frame { status, rows, message, cursor_col, cursor_row }
}

/// What the open prompt `p` shows on the bottom row of a screen of `height`
/// rows and `width` columns.
pub fn prompt_view(p: &Prompt, height: usize, width: usize) -> (r: PromptView)
    requires
        p.wf(),
    ensures
        r.label@ == p.message@,
        p.message@.len() < usize::MAX ==> r.input@ == window(
            p.data@,
            p.left_visible as int,
            sat_sub(width as int, (p.message@.len() + 1) as int),
        ),
        p.message@.len() + 1 + p.cursor <= usize::MAX ==> r.cursor_col == sat_sub(
            (p.message@.len() + 1 + p.cursor) as int,
            p.left_visible as int,
        ),
        r.row == sat_sub(height as int, 1),
{
    let label = string_of(&chars_of(p.message.data.as_str()));
    let offset = if p.message.char_len < usize::MAX {
        p.message.char_len + 1
    } else {
        p.message.char_len
    };
    let input = window_of(&p.data, p.left_visible, sub_or_zero(width, offset));
    let col = if offset <= usize::MAX - p.cursor {
        sub_or_zero(offset + p.cursor, p.left_visible)
    } else {
        0
    };
    PromptView { label, input, cursor_col: col, row: sub_or_zero(height, 1) }
}

} // verus!
