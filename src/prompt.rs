//! Keystrokes in a prompt: editing its one line of input, accepting it or
//! cancelling it.

use vstd::prelude::*;
use crate::buffer::{Prompt, PromptStatus};
use crate::editor::{fits, scroll_to, KeyCode, KeyEvent};
use crate::utf8::{
    byte_pos, lemma_byte_pos_full, lemma_byte_pos_le, lemma_byte_pos_mono,
    lemma_byte_pos_zero,
};

verus! {

/// Input and scalar-value cursor after `key` on input `s` with the cursor at
/// `c`.
pub open spec fn after_prompt_key(s: Seq<char>, c: int, key: KeyCode) -> (Seq<char>, int) {
    match key {
        KeyCode::Backspace => if c > 0 {
            (s.remove(c - 1), c - 1)
        } else {
            (s, c)
        },
        KeyCode::Left => if c > 0 {
            (s, c - 1)
        } else {
            (s, c)
        },
        KeyCode::Right => if c < s.len() {
            (s, c + 1)
        } else {
            (s, c)
        },
        KeyCode::Delete => if c < s.len() {
            (s.remove(c), c)
        } else {
            (s, c)
        },
        KeyCode::Char(ch) => if fits(s.len() + 1) {
            (s.insert(c, ch), c + 1)
        } else {
            (s, c)
        },
        _ => (s, c),
    }
}

/// Status after `key`: Enter accepts, Esc cancels.
pub open spec fn prompt_status_after(st: PromptStatus, key: KeyCode) -> PromptStatus {
    match key {
        KeyCode::Enter => PromptStatus::Success,
        KeyCode::Esc => PromptStatus::Cancelled,
        _ => st,
    }
}

/// Columns that the input shows on a screen `width` columns wide, after a
/// label of `label` scalar values.
pub open spec fn input_cols(width: int, label: int) -> int {
    if width > label {
        width - label
    } else {
        1
    }
}

/// Moves the prompt's view of its input so that the cursor is inside it, on a
/// screen `width` columns wide.
pub fn prompt_scroll(prompt: &mut Prompt, width: usize)
    requires
        old(prompt).wf(),
    ensures
        final(prompt).wf(),
        final(prompt).left_visible == scroll_to(
            old(prompt).left_visible as int,
            old(prompt).cursor as int,
            input_cols(width as int, old(prompt).message@.len() as int),
        ),
        final(prompt).data == old(prompt).data,
        final(prompt).message == old(prompt).message,
        final(prompt).location == old(prompt).location,
        final(prompt).cursor == old(prompt).cursor,
        final(prompt).status == old(prompt).status,
        final(prompt).p_type == old(prompt).p_type,
{
    let label = prompt.message.char_len;
    let span = if width > label {
        width - label
    } else {
        1
    };
    let c = prompt.cursor;
    let left = prompt.left_visible;
    if c < left {
        prompt.left_visible = c;
    } else if c - left >= span {
        prompt.left_visible = c - (span - 1);
    }
}

/// Handles a key in a prompt, then scrolls its input; `width` is the width
/// of the screen.
pub fn prompt_input(prompt: &mut Prompt, ke: KeyEvent, width: usize)
    requires
        old(prompt).wf(),
    ensures
        final(prompt).wf(),
        ({
            let m = after_prompt_key(old(prompt).data@, old(prompt).cursor as int, ke.code);
            final(prompt).data@ == m.0 && final(prompt).cursor == m.1
        }),
        final(prompt).status == prompt_status_after(old(prompt).status, ke.code),
        final(prompt).left_visible == scroll_to(
            old(prompt).left_visible as int,
            final(prompt).cursor as int,
            input_cols(width as int, old(prompt).message@.len() as int),
        ),
        final(prompt).message == old(prompt).message,
        final(prompt).p_type == old(prompt).p_type,
{
    let ghost s = prompt.data@;
    let ghost c = prompt.cursor as int;
    let pos = prompt.location;
    proof {
        lemma_byte_pos_zero(s);
        lemma_byte_pos_full(s);
        if c > 0 {
            lemma_byte_pos_mono(s, 0, c);
            lemma_byte_pos_mono(s, c - 1, c);
        }
        if c < s.len() {
            lemma_byte_pos_mono(s, c, s.len() as int);
        }
        lemma_byte_pos_le(s, c, s.len() as int);
        assert(byte_pos(s, c) == pos);
    }
    let (prev_char_bound, next_char_bound) = prompt.data.get_next_and_prev_chars(pos);
    match ke.code {
        KeyCode::Backspace => {
            if pos > 0 {
                proof {
                    assert(byte_pos(s, c - 1) == prev_char_bound);
                }
                prompt.data.remove(prev_char_bound);
                prompt.location = prev_char_bound;
                prompt.cursor = prompt.cursor - 1;
                proof {
                    assert(s.remove(c - 1).take(c - 1) =~= s.take(c - 1));
                }
            }
        },
        KeyCode::Enter => {
            prompt.status = PromptStatus::Success;
        },
        KeyCode::Left => {
            if pos > 0 {
                prompt.location = prev_char_bound;
                prompt.cursor = prompt.cursor - 1;
            }
        },
        KeyCode::Right => {
            if pos < prompt.data.len() {
                prompt.location = next_char_bound;
                prompt.cursor = prompt.cursor + 1;
            }
        },
        KeyCode::Delete => {
            if pos != prompt.data.len() {
                prompt.data.remove(pos);
                proof {
                    assert(s.remove(c).take(c) =~= s.take(c));
                }
            }
        },
        KeyCode::Char(ch) => {
            if prompt.data.char_len < usize::MAX {
                prompt.data.insert(pos, ch);
                let nc = prompt.cursor + 1;
                prompt.location = prompt.data.get_char_pos(nc);
                prompt.cursor = nc;
            }
        },
        KeyCode::Esc => {
            prompt.status = PromptStatus::Cancelled;
        },
        _ => {},
    }
    prompt_scroll(prompt, width);
}

} // verus!
