//! What the input task decides for each terminal event: the state changes
//! and what is left for the caller to do (save, quit, or wait for a quit
//! confirmation).

use vstd::prelude::*;
use crate::buffer::{FileData, FileStatus, Prompt, PromptStatus, PromptType, TextPos};
use crate::config::Config;
use crate::editor::{normal_input, scroll, scroll_to, text_cols, text_rows, KeyCode, KeyEvent};
use crate::message::{Message, DEFAULT_TIMEOUT_MS};
use crate::prompt::{after_prompt_key, prompt_input};
use crate::search::{search, search_spec};
use crate::strings::{decimal, push_decimal, string_push_str};

verus! {

/// A terminal event, as the input task sees it.
#[derive(Clone, Copy, Debug, PartialEq, Eq, Structural)]
pub enum Event {
    Key(KeyEvent),
    /// New width and height of the terminal.
    Resize(u16, u16),
    Other,
}

/// What the caller does after an event has been handled.
#[derive(Clone, Copy, Debug, PartialEq, Eq, Structural)]
pub enum Outcome {
    Continue,
    /// Stop reading events.
    Quit,
    /// Write `save_contents` to `path`, then report with `finish_save`.
    Save,
    /// The buffer has unsaved edits: wait a moment, then hand the next event
    /// to `confirm_quit`.
    ConfirmQuit,
}

/// Ctrl together with the letter `c`.
pub open spec fn is_ctrl(ke: KeyEvent, c: char) -> bool {
    ke.ctrl && ke.code == KeyCode::Char(c)
}

/// `a` followed by `b`.
fn concat(a: &str, b: &str) -> (r: String)
    ensures
        r@ == a@ + b@,
{
    let mut s = String::new();
    string_push_str(&mut s, a);
    string_push_str(&mut s, b);
    assert(s@ =~= a@ + b@);
    s
}

/// Text of the message after a search for `p` found it at row `row`, column
/// `col`.
pub open spec fn found_text(p: Seq<char>, row: nat, col: nat) -> Seq<char> {
    "Found: \""@ + p + "\" at Ln:"@ + decimal(row) + ", Col:"@ + decimal(col)
}

/// Text of the message after a search for `p` found nothing.
pub open spec fn not_found_text(p: Seq<char>) -> Seq<char> {
    "Phrase: \""@ + p + "\" not found"@
}

fn found_message(p: &str, row: usize, col: usize) -> (r: String)
    ensures
        r@ == found_text(p@, row as nat, col as nat),
{
    let mut s = concat("Found: \"", p);
    string_push_str(&mut s, "\" at Ln:");
    push_decimal(&mut s, row);
    string_push_str(&mut s, ", Col:");
    push_decimal(&mut s, col);
    s
}

fn not_found_message(p: &str) -> (r: String)
    ensures
        r@ == not_found_text(p@),
{
    let mut s = concat("Phrase: \"", p);
    string_push_str(&mut s, "\" not found");
    s
}

impl FileData {
    /// Reports a save of `save_contents` to `path`: on success the buffer
    /// is clean again.
    pub fn finish_save(&mut self, ok: bool)
        requires
            old(self).wf(),
        ensures
            final(self).wf(),
            ok ==> final(self).f_status == FileStatus::Clean,
            ok ==> final(self).message.text@ == "Saved: "@ + old(self).path@,
            !ok ==> final(self).f_status == old(self).f_status,
            !ok ==> final(self).message.text@ == "Could not save: "@ + old(self).path@,
            final(self).lines == old(self).lines,
            final(self).location == old(self).location,
            final(self).cursor_location == old(self).cursor_location,
            final(self).path == old(self).path,
            final(self).prompt == old(self).prompt,
            final(self).size == old(self).size,
            final(self).top_visible == old(self).top_visible,
            final(self).left_visible == old(self).left_visible,
            final(self).ended == old(self).ended,
            final(self).message.timeout_ms == DEFAULT_TIMEOUT_MS,
            final(self).redraw,
    {
        if ok {
            self.f_status = FileStatus::Clean;
            self.message = Message::new(concat("Saved: ", self.path.as_str()));
        } else {
            self.message = Message::new(concat("Could not save: ", self.path.as_str()));
        }
        self.redraw = true;
    }
}

/// Moves the cursor to the first match of `p` from the cursor on, and says
/// in the message whether there was one.
pub fn accept_search(w: &mut FileData, p: &str)
    requires
        old(w).wf(),
    ensures
        final(w).wf(),
        final(w).text() == old(w).text(),
        final(w).f_status == old(w).f_status,
        final(w).path == old(w).path,
        final(w).prompt == old(w).prompt,
        final(w).redraw == old(w).redraw,
        final(w).ended == old(w).ended,
        final(w).size == old(w).size,
        final(w).message.timeout_ms == DEFAULT_TIMEOUT_MS,
        final(w).top_visible == scroll_to(old(w).top_visible as int, final(w).row(), text_rows(old(w).size)),
        final(w).left_visible == scroll_to(
            old(w).left_visible as int,
            final(w).col(),
            text_cols(old(w).size),
        ),
        match search_spec(old(w).text(), old(w).row(), old(w).col(), p@) {
            Some((a, b)) => final(w).row() == a && final(w).col() == b && final(w).message.text@
                == found_text(p@, a as nat, b as nat),
            None => final(w).row() == old(w).row() && final(w).col() == old(w).col()
                && final(w).message.text@ == not_found_text(p@),
        },
{
    proof {
        crate::search::lemma_search_range(w.text(), w.row(), w.col(), p@);
    }
    match search(&w.lines, w.location.0, w.cursor_location.1, p) {
        Some((a, b)) => {
            let loc = w.lines[a].get_char_pos(b);
            w.location = TextPos(a, loc);
            w.cursor_location = TextPos(a, b);
            w.message = Message::new(found_message(p, a, b));
            proof {
                assert(w.lines@[a as int].wf());
            }
        },
        None => {
            w.message = Message::new(not_found_message(p));
        },
    }
    scroll(w);
}

/// What Ctrl with `code` does to `o`, giving `f` and the outcome `r`, where
/// `file` is the path of the settings.
pub open spec fn control_effect(
    o: &FileData,
    f: &FileData,
    file: Option<String>,
    code: KeyCode,
    r: Outcome,
) -> bool {
    &&& f.text() == o.text()
    &&& f.row() == o.row()
    &&& f.col() == o.col()
    &&& f.f_status == o.f_status
    &&& f.size == o.size
    &&& f.top_visible == o.top_visible
    &&& f.left_visible == o.left_visible
    &&& code != KeyCode::Char('s') ==> f.path == o.path
    &&& code != KeyCode::Char('q') ==> f.message == o.message
    &&& code == KeyCode::Char('q') && o.f_status == FileStatus::Edited ==> r == Outcome::ConfirmQuit
        && f.ended == o.ended && f.message.text@ == "Press Ctrl + Q again to quit"@
        && f.message.timeout_ms == DEFAULT_TIMEOUT_MS && f.prompt == o.prompt
    &&& code == KeyCode::Char('q') && o.f_status == FileStatus::Clean ==> r == Outcome::Quit
        && f.ended && f.prompt == o.prompt
    &&& code == KeyCode::Char('s') ==> match file {
        Some(p) => r == Outcome::Save && f.path == p && f.prompt == o.prompt,
        None => r == Outcome::Continue && (f.prompt matches Some(p) && p.p_type == PromptType::Save
            && p.data@.len() == 0),
    }
    &&& code == KeyCode::Char('f') ==> r == Outcome::Continue && (f.prompt matches Some(p) && p.p_type
        == PromptType::Search && p.data@.len() == 0)
    &&& code != KeyCode::Char('q') && code != KeyCode::Char('s') && code != KeyCode::Char('f') ==> r
        == Outcome::Continue && f.ended == o.ended && f.prompt == o.prompt
}

/// What a key with `code` does to `o` while its prompt is open, giving `f`
/// and the outcome `r`, where `file` is the path of the settings afterwards.
pub open spec fn prompt_effect(
    o: &FileData,
    f: &FileData,
    file: Option<String>,
    code: KeyCode,
    r: Outcome,
) -> bool {
    let p = o.prompt.unwrap();
    &&& f.text() == o.text()
    &&& f.f_status == o.f_status
    &&& f.ended == o.ended
    &&& f.size == o.size
    &&& code != KeyCode::Enter ==> f.path == o.path && f.message == o.message
    &&& !(code == KeyCode::Enter && p.p_type == PromptType::Search) ==> f.top_visible == o.top_visible
        && f.left_visible == o.left_visible
    &&& code != KeyCode::Enter && code != KeyCode::Esc ==> r == Outcome::Continue && (f.prompt matches Some(
        q,
    ) && q.data@ == after_prompt_key(p.data@, p.cursor as int, code).0 && q.cursor == after_prompt_key(
        p.data@,
        p.cursor as int,
        code,
    ).1 && q.p_type == p.p_type) && f.row() == o.row() && f.col() == o.col()
    &&& code == KeyCode::Esc ==> r == Outcome::Continue && f.prompt is None && f.row() == o.row()
        && f.col() == o.col()
    &&& code == KeyCode::Enter ==> f.prompt is None
    &&& code == KeyCode::Enter && p.p_type == PromptType::Save ==> r == Outcome::Save && f.path@
        == p.data@ && (file matches Some(n) && n@ == p.data@)
    &&& code == KeyCode::Enter && p.p_type == PromptType::Search ==> r == Outcome::Continue
        && f.top_visible == scroll_to(o.top_visible as int, f.row(), text_rows(o.size))
        && f.left_visible == scroll_to(o.left_visible as int, f.col(), text_cols(o.size))
        && f.message.timeout_ms == DEFAULT_TIMEOUT_MS && match search_spec(
        o.text(),
        o.row(),
        o.col(),
        p.data@,
    ) {
        Some((a, b)) => f.row() == a && f.col() == b && f.message.text@ == found_text(
            p.data@,
            a as nat,
            b as nat,
        ),
        None => f.row() == o.row() && f.col() == o.col() && f.message.text@ == not_found_text(p.data@),
    }
}

/// `a` and `b` hold the same buffer: lines, cursors, viewport, prompt, path
/// and edit status.
pub open spec fn same_buffer(a: &FileData, b: &FileData) -> bool {
    &&& a.lines == b.lines
    &&& a.location == b.location
    &&& a.cursor_location == b.cursor_location
    &&& a.top_visible == b.top_visible
    &&& a.left_visible == b.left_visible
    &&& a.prompt == b.prompt
    &&& a.path == b.path
    &&& a.f_status == b.f_status
}

/// Ctrl with a key: quit, save, or open a prompt.
fn control_key(w: &mut FileData, config: &Config, code: KeyCode) -> (r: Outcome)
    requires
        old(w).wf(),
    ensures
        final(w).wf(),
        control_effect(old(w), final(w), config.file, code, r),
        final(w).redraw == old(w).redraw,
{
    match code {
        KeyCode::Char('q') => {
            if w.f_status == FileStatus::Edited {
                let mut t = String::new();
                string_push_str(&mut t, "Press Ctrl + Q again to quit");
                w.message = Message::new(t);
                Outcome::ConfirmQuit
            } else {
                w.ended = true;
                Outcome::Quit
            }
        },
        KeyCode::Char('s') => {
            match &config.file {
                Some(f) => {
                    w.path = f.clone();
                    Outcome::Save
                },
                None => {
                    w.prompt = Some(Prompt::new("Path: ", PromptType::Save));
                    Outcome::Continue
                },
            }
        },
        KeyCode::Char('f') => {
            w.prompt = Some(Prompt::new("Search: ", PromptType::Search));
            Outcome::Continue
        },
        _ => Outcome::Continue,
    }
}

/// A key while a prompt is open: edits its input; on Enter saves to the
/// entered path or searches for the entered text; on Esc closes it.
fn prompt_key(w: &mut FileData, config: &mut Config, ke: KeyEvent) -> (r: Outcome)
    requires
        old(w).wf(),
        old(w).prompt is Some,
    ensures
        final(w).wf(),
        prompt_effect(old(w), final(w), final(config).file, ke.code, r),
        final(w).redraw == old(w).redraw,
        ke.code != KeyCode::Enter ==> final(config).file == old(config).file,
{
    let width = w.size.1;
    let mut p = w.prompt.take().unwrap();
    prompt_input(&mut p, ke, width);
    match p.status {
        PromptStatus::Pending => {
            w.prompt = Some(p);
            Outcome::Continue
        },
        PromptStatus::Cancelled => Outcome::Continue,
        PromptStatus::Success => {
            match p.p_type {
                PromptType::Save => {
                    config.file = Some(p.data.data.clone());
                    w.path = p.data.data.clone();
                    Outcome::Save
                },
                PromptType::Search => {
                    accept_search(w, p.data.data.as_str());
                    Outcome::Continue
                },
            }
        },
    }
}

/// Handles one terminal event.
pub fn handle_event(w: &mut FileData, config: &mut Config, ev: Event) -> (r: Outcome)
    requires
        old(w).wf(),
    ensures
        final(w).wf(),
        !(ev matches Event::Key(ke) && ke.ctrl) ==> final(w).ended == old(w).ended,
        match ev {
            Event::Key(ke) => final(w).redraw && (if ke.ctrl {
                control_effect(old(w), final(w), old(config).file, ke.code, r) && final(config).file
                    == old(config).file
            } else if old(w).ended {
                r == Outcome::Quit && final(w).text() == old(w).text() && final(w).f_status == old(w).f_status
                    && final(config).file == old(
                    config,
                ).file
            } else if old(w).prompt is Some {
                prompt_effect(old(w), final(w), final(config).file, ke.code, r) && (ke.code
                    != KeyCode::Enter ==> final(config).file == old(config).file)
            } else {
                r == Outcome::Continue && ({
                    let m = crate::editor::after_key(
                        old(w).text(),
                        old(w).row(),
                        old(w).col(),
                        ke.code,
                        old(config).tab_size as nat,
                        old(w).size.0 as nat,
                    );
                    final(w).text() == m.0 && final(w).row() == m.1 && final(w).col() == m.2
                }) && final(w).f_status == (if crate::editor::edits(
                    old(w).text(),
                    old(w).row(),
                    old(w).col(),
                    ke.code,
                    old(config).tab_size as nat,
                ) {
                    FileStatus::Edited
                } else {
                    old(w).f_status
                }) && final(config).file == old(config).file
            }),
            Event::Resize(cols, rows) => r == Outcome::Continue && final(w).size == TextPos(
                rows as usize,
                cols as usize,
            ) && final(w).redraw && final(w).text() == old(w).text() && same_buffer(old(w), final(w))
                && final(w).message == old(w).message && final(config).file == old(config).file,
            Event::Other => r == Outcome::Continue && final(w).text() == old(w).text() && same_buffer(
                old(w),
                final(w),
            ) && final(w).message == old(w).message && final(w).size == old(w).size && final(w).redraw
                == old(w).redraw && final(config).file == old(config).file,
        },
{
    match ev {
        Event::Key(ke) => {
            w.redraw = true;
            if ke.ctrl {
                control_key(w, config, ke.code)
            } else if w.ended {
                Outcome::Quit
            } else if w.prompt.is_some() {
                prompt_key(w, config, ke)
            } else {
                normal_input(ke, w, config);
                Outcome::Continue
            }
        },
        Event::Resize(cols, rows) => {
            w.size = TextPos(rows as usize, cols as usize);
            w.redraw = true;
            Outcome::Continue
        },
        Event::Other => Outcome::Continue,
    }
}

/// The event after Ctrl+Q on an edited buffer: a second Ctrl+Q ends the
/// session; any other event is dropped and the session goes on.
pub fn confirm_quit(w: &mut FileData, ev: Event) -> (r: bool)
    requires
        old(w).wf(),
    ensures
        final(w).wf(),
        r == (ev matches Event::Key(ke) && is_ctrl(ke, 'q')),
        final(w).ended == (old(w).ended || r),
        final(w).text() == old(w).text(),
        same_buffer(old(w), final(w)),
        final(w).message == old(w).message,
        final(w).size == old(w).size,
        final(w).redraw == old(w).redraw,
{
    match ev {
        Event::Key(ke) => {
            if ke.ctrl && ke.code == KeyCode::Char('q') {
                w.ended = true;
                true
            } else {
                false
            }
        },
        _ => false,
    }
}

} // verus!
