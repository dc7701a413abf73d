//! The text buffer of the edited file: its lines, the two cursors, the
//! viewport, and the state around them.

use vstd::prelude::*;
use crate::config::Config;
use crate::line::Line;
use crate::message::Message;
use crate::strings::{chars_of, string_from_utf8, string_of, string_push, string_push_str};
use crate::utf8::{byte_pos, lemma_byte_pos_zero};

verus! {

/// A position in the text: row, then column.
#[derive(Clone, Copy, Debug, PartialEq, Eq)]
pub struct TextPos(pub usize, pub usize);

#[derive(Clone, Copy, Debug, PartialEq, Eq, Structural, Default)]
pub enum FileStatus {
    /// file was not edited
    #[default]
    Clean,
    /// file was edited
    Edited,
}

#[derive(Clone, Copy, Debug, PartialEq, Eq, Structural, Default)]
pub enum PromptType {
    #[default]
    Save,
    Search,
}

#[derive(Clone, Copy, Debug, PartialEq, Eq, Structural, Default)]
pub enum PromptStatus {
    #[default]
    Pending,
    Cancelled,
    Success,
}

/// A one-line input at the bottom of the screen: a save path or a search
/// term.
#[derive(Debug)]
pub struct Prompt {
    pub message: Line,
    pub data: Line,
    pub p_type: PromptType,
    /// Byte offset of the cursor in `data`.
    pub location: usize,
    /// Scalar-value offset of the cursor in `data`.
    pub cursor: usize,
    pub status: PromptStatus,
    pub left_visible: usize,
}

impl Prompt {
    pub open spec fn wf(&self) -> bool {
        &&& self.message.wf()
        &&& self.data.wf()
        &&& self.cursor <= self.data@.len()
        &&& self.location == byte_pos(self.data@, self.cursor as int)
    }

    pub fn new(message: &str, p_type: PromptType) -> (r: Prompt)
        ensures
            r.wf(),
            r.message@ == message@.take(crate::line::first_newline(message@)),
            r.data@.len() == 0,
            r.p_type == p_type,
            r.location == 0,
            r.cursor == 0,
            r.status == PromptStatus::Pending,
            r.left_visible == 0,
    {
        let data = Line::from_string(String::new());
        proof {
            lemma_byte_pos_zero(data@);
        }
        Prompt {
            message: Line::new(message),
            data,
            p_type,
            location: 0,
            cursor: 0,
            status: PromptStatus::Pending,
            left_visible: 0,
        }
    }
}

/// `n` spaces.
pub open spec fn spaces(n: nat) -> Seq<char> {
    Seq::new(n, |i: int| ' ')
}

/// `l` without one carriage return at its end.
pub open spec fn strip_cr(l: Seq<char>) -> Seq<char> {
    if l.len() > 0 && l.last() == '\r' {
        l.drop_last()
    } else {
        l
    }
}

/// Reading `t` from its start: the lines already ended by a line feed (a
/// carriage return before that line feed belongs to the line ending), and the
/// line under way. A tab reads as `tab` spaces.
pub open spec fn load_state(t: Seq<char>, tab: nat) -> (Seq<Seq<char>>, Seq<char>)
    decreases t.len(),
{
    if t.len() == 0 {
        (seq![], seq![])
    } else {
        let (done, cur) = load_state(t.drop_last(), tab);
        let c = t.last();
        if c == '\n' {
            (done.push(strip_cr(cur)), seq![])
        } else if c == '\t' {
            (done, cur + spaces(tab))
        } else {
            (done, cur.push(c))
        }
    }
}

/// The lines of a file whose text is `t`: a final line feed ends the last line
/// rather than starting an empty one, and an empty file has one empty line.
pub open spec fn load_lines(t: Seq<char>, tab: nat) -> Seq<Seq<char>> {
    let (done, cur) = load_state(t, tab);
    let ls = if cur.len() == 0 {
        done
    } else {
        done.push(cur)
    };
    if ls.len() == 0 {
        seq![seq![]]
    } else {
        ls
    }
}

/// The text that saving `ls` writes: each line followed by CR LF.
pub open spec fn save_text(ls: Seq<Seq<char>>) -> Seq<char>
    decreases ls.len(),
{
    if ls.len() == 0 {
        seq![]
    } else {
        save_text(ls.drop_last()) + ls.last() + seq!['\r', '\n']
    }
}

/// Text of a file read as bytes: the UTF-8 they encode, or nothing when they
/// are not valid UTF-8.
pub open spec fn decoded(bytes: Seq<u8>) -> Seq<char> {
    if vstd::utf8::valid_utf8(bytes) {
        vstd::utf8::decode_utf8(bytes)
    } else {
        seq![]
    }
}

#[derive(Debug)]
pub struct FileData {
    pub lines: Vec<Line>,
    pub path: String,
    /// Cursor as a byte offset into its line.
    pub location: TextPos,
    pub ended: bool,
    /// Viewport height and width.
    pub size: TextPos,
    pub top_visible: usize,
    pub left_visible: usize,
    /// Cursor as a scalar-value offset into its line.
    pub cursor_location: TextPos,
    pub message: Message,
    pub f_status: FileStatus,
    pub prompt: Option<Prompt>,
    pub redraw: bool,
}

/// The text of each line.
pub open spec fn lines_view(lines: Seq<Line>) -> Seq<Seq<char>> {
    lines.map_values(|l: Line| l@)
}

impl FileData {
    /// The lines are well formed and there is at least one; both cursors
    /// are on the same row of it; the byte cursor is where the scalar-value
    /// cursor's column starts.
    pub open spec fn wf(&self) -> bool {
        &&& self.lines@.len() >= 1
        &&& forall|i: int| 0 <= i < self.lines@.len() ==> (#[trigger] self.lines@[i]).wf()
        &&& self.location.0 < self.lines@.len()
        &&& self.cursor_location.0 == self.location.0
        &&& self.cursor_location.1 <= self.lines@[self.location.0 as int]@.len()
        &&& self.location.1 == byte_pos(
            self.lines@[self.location.0 as int]@,
            self.cursor_location.1 as int,
        )
        &&& self.prompt matches Some(p) ==> p.wf() && p.status == PromptStatus::Pending
    }

    pub open spec fn text(&self) -> Seq<Seq<char>> {
        lines_view(self.lines@)
    }

    pub open spec fn row(&self) -> int {
        self.location.0 as int
    }

    pub open spec fn col(&self) -> int {
        self.cursor_location.1 as int
    }

    /// A buffer with `lines`, the cursor at its start, for a viewport of
    /// `size`.
    fn with_lines(lines: Vec<Line>, path: String, size: TextPos) -> (r: FileData)
        requires
            lines@.len() >= 1,
            forall|i: int| 0 <= i < lines@.len() ==> (#[trigger] lines@[i]).wf(),
        ensures
            r.wf(),
            r.lines@ == lines@,
            r.path@ == path@,
            r.size == size,
            r.location == TextPos(0, 0),
            r.cursor_location == TextPos(0, 0),
            r.top_visible == 0,
            r.left_visible == 0,
            r.f_status == FileStatus::Clean,
            r.prompt is None,
            r.redraw,
            !r.ended,
    {
        proof {
            lemma_byte_pos_zero(lines@[0]@);
        }
        let mut text = String::new();
        string_push_str(&mut text, "Press Ctrl+Q to quit");
        FileData {
            lines,
            path,
            cursor_location: TextPos(0, 0),
            location: TextPos(0, 0),
            ended: false,
            size,
            top_visible: 0,
            left_visible: 0,
            message: Message::new(text),
            f_status: FileStatus::Clean,
            prompt: None,
            redraw: true,
        }
    }

    /// An empty buffer, with no path, for a viewport of `size`.
    pub fn new(size: TextPos) -> (r: FileData)
        ensures
            r.wf(),
            r.text() == seq![Seq::<char>::empty()],
            r.path@.len() == 0,
            r.size == size,
            r.location == TextPos(0, 0),
            r.cursor_location == TextPos(0, 0),
            r.f_status == FileStatus::Clean,
            r.prompt is None,
            r.top_visible == 0,
            r.left_visible == 0,
            r.redraw,
            !r.ended,
    {
        let mut lines: Vec<Line> = Vec::new();
        lines.push(Line::from_string(String::new()));
        assert(lines_view(lines@) =~= seq![Seq::<char>::empty()]);
        FileData::with_lines(lines, String::new(), size)
    }

    /// The buffer of a file at `path` whose text is `text`.
    pub fn from_text(path: String, text: &str, config: &Config, size: TextPos) -> (r: FileData)
        ensures
            r.wf(),
            r.text() == load_lines(text@, config.tab_size as nat),
            r.path@ == path@,
            r.size == size,
            r.location == TextPos(0, 0),
            r.cursor_location == TextPos(0, 0),
            r.f_status == FileStatus::Clean,
            r.prompt is None,
            r.top_visible == 0,
            r.left_visible == 0,
            r.redraw,
            !r.ended,
    {
        let lines = load(text, config.tab_size);
        FileData::with_lines(lines, path, size)
    }

    /// The buffer of a file at `path` whose content is `bytes`; bytes that
    /// are not valid UTF-8 give an empty buffer.
    pub fn from_bytes(path: String, bytes: Vec<u8>, config: &Config, size: TextPos) -> (r: FileData)
        ensures
            r.wf(),
            r.text() == load_lines(decoded(bytes@), config.tab_size as nat),
            r.path@ == path@,
            r.size == size,
            r.location == TextPos(0, 0),
            r.cursor_location == TextPos(0, 0),
            r.f_status == FileStatus::Clean,
            r.prompt is None,
            r.top_visible == 0,
            r.left_visible == 0,
            r.redraw,
            !r.ended,
    {
        let ghost b = bytes@;
        match string_from_utf8(bytes) {
            Some(s) => {
                proof {
                    vstd::utf8::encode_utf8_decode_utf8(s@);
                }
                FileData::from_text(path, s.as_str(), config, size)
            },
            None => {
                proof {
                    reveal_strlit("");
                    assert(""@ =~= decoded(b));
                }
                FileData::from_text(path, "", config, size)
            },
        }
    }

    /// What saving writes: each line followed by CR LF.
    pub fn save_contents(&self) -> (r: String)
        ensures
            r@ == save_text(lines_view(self.lines@)),
    {
        let mut out = String::new();
        let mut i: usize = 0;
        while i < self.lines.len()
            invariant
                i <= self.lines@.len(),
                out@ == save_text(lines_view(self.lines@.take(i as int))),
            decreases self.lines@.len() - i,
        {
            proof {
                assert(self.lines@.take(i + 1).drop_last() =~= self.lines@.take(i as int));
                reveal_strlit("\r\n");
            }
            string_push_str(&mut out, self.lines[i].data.as_str());
            string_push_str(&mut out, "\r\n");
            i = i + 1;
            proof {
                assert(lines_view(self.lines@.take(i as int)).drop_last() =~= lines_view(
                    self.lines@.take(i - 1),
                ));
                assert(out@ =~= save_text(lines_view(self.lines@.take(i as int))));
            }
        }
        assert(self.lines@.take(self.lines@.len() as int) =~= self.lines@);
        out
    }

    /// The boundaries around the byte cursor in its line.
    pub fn get_next_and_prev_chars(&self) -> (r: (usize, usize))
        requires
            self.wf(),
        ensures
            self.col() == 0 ==> r.0 == 0,
            self.col() == self.text()[self.row()].len() ==> r.1 == self.location.1,
            self.col() > 0 ==> r.0 == byte_pos(self.text()[self.row()], self.col() - 1),
            self.col() < self.text()[self.row()].len() ==> r.1 == byte_pos(
                self.text()[self.row()],
                self.col() + 1,
            ),
    {
        let row = self.location.0;
        let ghost s = self.lines@[row as int]@;
        proof {
            crate::utf8::lemma_byte_pos_le(s, self.col(), s.len() as int);
            crate::utf8::lemma_byte_pos_full(s);
            lemma_byte_pos_zero(s);
            if self.col() > 0 {
                crate::utf8::lemma_byte_pos_mono(s, 0, self.col());
            }
        }
        self.lines[row].get_next_and_prev_chars(self.location.1)
    }
}

/// `tab` spaces.
pub fn spaces_of(tab: usize) -> (r: String)
    ensures
        r@ == spaces(tab as nat),
{
    let mut s = String::new();
    let mut i: usize = 0;
    while i < tab
        invariant
            i <= tab,
            s@ == spaces(i as nat),
        decreases tab - i,
    {
        string_push(&mut s, ' ');
        i = i + 1;
        assert(s@ =~= spaces(i as nat));
    }
    s
}

/// The lines of a file whose text is `text`.
fn load(text: &str, tab: usize) -> (r: Vec<Line>)
    ensures
        lines_view(r@) == load_lines(text@, tab as nat),
        forall|i: int| 0 <= i < r@.len() ==> (#[trigger] r@[i]).wf(),
        r@.len() >= 1,
{
    let chars = chars_of(text);
    let mut done: Vec<Line> = Vec::new();
    let mut cur: Vec<char> = Vec::new();
    let mut i: usize = 0;
    while i < chars.len()
        invariant
            chars@ == text@,
            i <= chars@.len(),
            (lines_view(done@), cur@) == load_state(chars@.take(i as int), tab as nat),
            forall|j: int| 0 <= j < done@.len() ==> (#[trigger] done@[j]).wf(),
        decreases chars@.len() - i,
    {
        let c = chars[i];
        proof {
            assert(chars@.take(i + 1).drop_last() =~= chars@.take(i as int));
        }
        if c == '\n' {
            let n = cur.len();
            if n > 0 && cur[n - 1] == '\r' {
                cur.pop();
            }
            let ghost done_before = done@;
            assert(cur@ == strip_cr(load_state(chars@.take(i as int), tab as nat).1));
            let l = Line::from_string(string_of(&cur));
            done.push(l);
            cur = Vec::new();
            proof {
                assert(lines_view(done@) =~= lines_view(done_before).push(l@));
            }
        } else if c == '\t' {
            let mut k: usize = 0;
            let ghost before = cur@;
            while k < tab
                invariant
                    k <= tab,
                    cur@ == before + spaces(k as nat),
                decreases tab - k,
            {
                cur.push(' ');
                k = k + 1;
                assert(cur@ =~= before + spaces(k as nat));
            }
        } else {
            cur.push(c);
        }
        i = i + 1;
    }
    proof {
        assert(chars@.take(chars@.len() as int) =~= chars@);
    }
    if cur.len() > 0 {
        let ghost done_before = done@;
        let l = Line::from_string(string_of(&cur));
        done.push(l);
        assert(lines_view(done@) =~= lines_view(done_before).push(l@));
    }
    if done.len() == 0 {
        done.push(Line::from_string(String::new()));
        assert(lines_view(done@) =~= seq![Seq::<char>::empty()]);
    }
    done
}

} // verus!
