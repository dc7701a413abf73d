//! Properties that relate several operations of the editor.

use vstd::prelude::*;
use crate::buffer::{load_lines, load_state, save_text, spaces, strip_cr};
use crate::editor::{after_key, edits, scroll_to, text_cols, text_rows, KeyCode};
use crate::buffer::TextPos;
use crate::utf8::{byte_pos, char_width};

verus! {

/// `l` holds neither a line feed nor a tab.
pub open spec fn plain(l: Seq<char>) -> bool {
    forall|i: int| 0 <= i < l.len() ==> l[i] != '\n' && l[i] != '\t'
}

proof fn lemma_load_state_plain_suffix(x: Seq<char>, l: Seq<char>, tab: nat)
    requires
        plain(l),
    ensures
        load_state(x + l, tab) == (load_state(x, tab).0, load_state(x, tab).1 + l),
    decreases l.len(),
{
    if l.len() == 0 {
        assert(x + l =~= x);
        assert(load_state(x, tab).1 + l =~= load_state(x, tab).1);
    } else {
        let m = l.drop_last();
        assert((x + l).drop_last() =~= x + m);
        assert((x + l).last() == l.last());
        lemma_load_state_plain_suffix(x, m, tab);
        assert(load_state(x, tab).1 + m + seq![l.last()] =~= load_state(x, tab).1 + l);
        assert((load_state(x, tab).1 + m).push(l.last()) =~= load_state(x, tab).1 + l);
    }
}

proof fn lemma_load_saved(ls: Seq<Seq<char>>, tab: nat)
    requires
        forall|i: int| 0 <= i < ls.len() ==> plain(#[trigger] ls[i]),
    ensures
        load_state(save_text(ls), tab) == (ls, Seq::<char>::empty()),
    decreases ls.len(),
{
    if ls.len() == 0 {
        assert(load_state(save_text(ls), tab).0 =~= ls);
    } else {
        let init = ls.drop_last();
        let last = ls.last();
        assert forall|i: int| 0 <= i < init.len() implies plain(#[trigger] init[i]) by {
            assert(init[i] == ls[i]);
        }
        lemma_load_saved(init, tab);
        let body = save_text(init) + last + seq!['\r'];
        let lr = last.push('\r');
        assert(plain(ls[ls.len() - 1]));
        assert(plain(lr));
        lemma_load_state_plain_suffix(save_text(init), lr, tab);
        assert(save_text(init) + lr =~= body);
        assert(Seq::<char>::empty() + lr =~= lr);
        assert(save_text(ls) =~= body.push('\n'));
        assert(body.push('\n').drop_last() =~= body);
        assert(strip_cr(lr) =~= last);
        assert(init.push(last) =~= ls);
    }
}

proof fn lemma_load_state_plain(t: Seq<char>, tab: nat)
    ensures
        plain(load_state(t, tab).1),
        forall|i: int|
            0 <= i < load_state(t, tab).0.len() ==> plain(#[trigger] load_state(t, tab).0[i]),
    decreases t.len(),
{
    if t.len() > 0 {
        lemma_load_state_plain(t.drop_last(), tab);
        let (done, cur) = load_state(t.drop_last(), tab);
        let c = t.last();
        if c == '\n' {
            let s = strip_cr(cur);
            assert(plain(s)) by {
                if cur.len() > 0 && cur.last() == '\r' {
                    assert forall|i: int| 0 <= i < s.len() implies s[i] != '\n' && s[i] != '\t' by {
                        assert(s[i] == cur[i]);
                    }
                }
            }
            assert forall|i: int| 0 <= i < done.push(s).len() implies plain(#[trigger] done.push(s)[i]) by {
                if i < done.len() {
                    assert(done.push(s)[i] == done[i]);
                }
            }
        } else if c == '\t' {
            assert forall|i: int| 0 <= i < (cur + spaces(tab)).len() implies (cur + spaces(tab))[i] != '\n'
                && (cur + spaces(tab))[i] != '\t' by {
                if i >= cur.len() {
                    assert((cur + spaces(tab))[i] == ' ');
                }
            }
        } else {
            assert forall|i: int| 0 <= i < cur.push(c).len() implies cur.push(c)[i] != '\n' && cur.push(
                c,
            )[i] != '\t' by {
                if i < cur.len() {
                    assert(cur.push(c)[i] == cur[i]);
                }
            }
        }
    }
}

/// Loading a file, saving it unedited and loading what was saved gives the
/// lines of the first load: saving turns LF into CR LF and leaves no tab, and
/// loading reads CR LF as a line end.
pub proof fn law_load_save_load(t: Seq<char>, tab: nat)
    ensures
        load_lines(save_text(load_lines(t, tab)), tab) == load_lines(t, tab),
{
    let ls = load_lines(t, tab);
    lemma_load_state_plain(t, tab);
    let (done, cur) = load_state(t, tab);
    assert forall|i: int| 0 <= i < ls.len() implies plain(#[trigger] ls[i]) by {
        if cur.len() == 0 && done.len() == 0 {
            assert(ls[i] =~= Seq::<char>::empty());
        } else if cur.len() != 0 && i == done.len() {
        } else {
            assert(ls[i] == done[i]);
        }
    }
    lemma_load_saved(ls, tab);
}

/// Recomputing the viewport twice in a row leaves it where the first
/// recomputation put it, and the cursor is inside it.
pub proof fn law_scroll_twice(top: int, left: int, row: int, col: int, size: TextPos)
    ensures
        scroll_to(scroll_to(top, row, text_rows(size)), row, text_rows(size)) == scroll_to(
            top,
            row,
            text_rows(size),
        ),
        scroll_to(scroll_to(left, col, text_cols(size)), col, text_cols(size)) == scroll_to(
            left,
            col,
            text_cols(size),
        ),
        scroll_to(top, row, text_rows(size)) <= row < scroll_to(top, row, text_rows(size))
            + text_rows(size),
        scroll_to(left, col, text_cols(size)) <= col < scroll_to(left, col, text_cols(size))
            + text_cols(size),
{
}

/// Enter, then Backspace at the position that Enter left the cursor at, gives
/// back the text and the cursor.
pub proof fn law_enter_backspace(ls: Seq<Seq<char>>, r: int, c: int, tab: nat, page: nat)
    requires
        0 <= r < ls.len(),
        0 <= c <= ls[r].len(),
        ls[r].len() <= usize::MAX,
    ensures
        ({
            let e = after_key(ls, r, c, KeyCode::Enter, tab, page);
            after_key(e.0, e.1, e.2, KeyCode::Backspace, tab, page) == (ls, r, c)
        }),
{
    let l = ls[r];
    let e = after_key(ls, r, c, KeyCode::Enter, tab, page);
    assert(e.0[r] == l.take(c));
    assert(e.0[r + 1] == l.skip(c));
    assert(l.take(c) + l.skip(c) =~= l);
    assert(e.0.update(r, l.take(c) + l.skip(c)).remove(r + 1) =~= ls);
}

/// Backspace at the very start of the text changes nothing.
pub proof fn law_backspace_at_start(ls: Seq<Seq<char>>, tab: nat, page: nat)
    requires
        ls.len() >= 1,
    ensures
        after_key(ls, 0, 0, KeyCode::Backspace, tab, page) == (ls, 0int, 0int),
        !edits(ls, 0, 0, KeyCode::Backspace, tab),
{
}

/// Typing a character, then Left, then Right, leaves the cursor just after
/// the typed character again, with the text unchanged by the two moves.
pub proof fn law_type_left_right(ls: Seq<Seq<char>>, r: int, c: int, ch: char, tab: nat, page: nat)
    requires
        0 <= r < ls.len(),
        0 <= c <= ls[r].len(),
        ls[r].len() + 1 <= usize::MAX,
    ensures
        ({
            let t = after_key(ls, r, c, KeyCode::Char(ch), tab, page);
            let a = after_key(t.0, t.1, t.2, KeyCode::Left, tab, page);
            after_key(a.0, a.1, a.2, KeyCode::Right, tab, page) == t && t.1 == r && t.2 == c + 1
                && byte_pos(t.0[r], t.2) == byte_pos(ls[r], c) + char_width(ch)
        }),
{
    let t = after_key(ls, r, c, KeyCode::Char(ch), tab, page);
    let l = ls[r];
    assert(t.0[r] == l.insert(c, ch));
    let x = l.insert(c, ch).take(c + 1);
    assert(x =~= l.take(c).push(ch));
    assert(x.drop_last() =~= l.take(c));
}

} // verus!
