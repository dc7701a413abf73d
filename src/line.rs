//! A line of text: its UTF-8 data and a cached count of its scalar values.

use vstd::prelude::*;
use crate::strings::{
    chars_of, str_byte_len, string_insert, string_insert_str, string_push_str, string_remove,
    string_split_off,
};
use crate::utf8::{
    byte_len, byte_pos, char_width_of, is_boundary, lemma_byte_pos_full,
    lemma_byte_pos_le, lemma_byte_pos_mono, lemma_byte_pos_step, lemma_byte_pos_zero,
};

verus! {

/// Index of the first line feed in `s`, or its length when it has none.
pub open spec fn first_newline(s: Seq<char>) -> int
    decreases s.len(),
{
    if s.len() == 0 {
        0
    } else if s[0] == '\n' {
        0
    } else {
        1 + first_newline(s.drop_first())
    }
}

/// Length of the run of spaces at the start of `s`, capped at `max`.
pub open spec fn leading_spaces(s: Seq<char>, max: nat) -> nat
    decreases s.len(),
{
    if s.len() == 0 || max == 0 || s[0] != ' ' {
        0
    } else {
        1 + leading_spaces(s.drop_first(), (max - 1) as nat)
    }
}

#[derive(Clone, Debug)]
pub struct Line {
    pub data: String,
    pub char_len: usize,
}

impl View for Line {
    type V = Seq<char>;

    open spec fn view(&self) -> Seq<char> {
        self.data@
    }
}

/// Byte offset of the scalar value with index `k` of `chars`, whose encoding
/// has `total` bytes.
fn offset_of(chars: &Vec<char>, total: usize, k: usize) -> (r: usize)
    requires
        total == byte_len(chars@),
        k <= chars@.len(),
    ensures
        r == byte_pos(chars@, k as int),
{
    let mut pos: usize = 0;
    let mut i: usize = 0;
    proof {
        lemma_byte_pos_zero(chars@);
    }
    while i < k
        invariant
            i <= k <= chars@.len(),
            total == byte_len(chars@),
            pos == byte_pos(chars@, i as int),
        decreases k - i,
    {
        proof {
            lemma_byte_pos_step(chars@, i as int);
            lemma_byte_pos_le(chars@, i + 1, chars@.len() as int);
            lemma_byte_pos_full(chars@);
        }
        pos = pos + char_width_of(chars[i]);
        i = i + 1;
    }
    pos
}

impl Line {
    pub open spec fn wf(&self) -> bool {
        self.char_len == self.data@.len()
    }

    /// Number of bytes of the line.
    pub open spec fn byte_len(&self) -> nat {
        byte_len(self@)
    }

    pub fn from_string(data: String) -> (r: Line)
        ensures
            r.wf(),
            r@ == data@,
    {
        let n = chars_of(data.as_str()).len();
        Line { data, char_len: n }
    }

    pub fn from_text(txt: &str) -> (r: Line)
        ensures
            r.wf(),
            r@ == txt@,
    {
        Line::from_string(txt.to_owned())
    }

    /// The text of `txt` before its first line feed.
    pub fn new(txt: &str) -> (r: Line)
        ensures
            r.wf(),
            r@ == txt@.take(first_newline(txt@)),
    {
        let chars = chars_of(txt);
        let mut i: usize = 0;
        assert(chars@.skip(0) =~= chars@);
        while i < chars.len() && chars[i] != '\n'
            invariant
                i <= chars@.len(),
                chars@ == txt@,
                first_newline(chars@) == i + first_newline(chars@.skip(i as int)),
            decreases chars.len() - i,
        {
            assert(chars@.skip(i as int).drop_first() =~= chars@.skip(i + 1));
            i = i + 1;
        }
        proof {
            if i < chars@.len() {
                assert(chars@.skip(i as int)[0] == '\n');
            }
        }
        let head = txt.substring_char(0, i);
        Line::from_text(head)
    }

    /// Number of bytes of the line.
    pub fn len(&self) -> (r: usize)
        ensures
            r == self.byte_len(),
    {
        str_byte_len(self.data.as_str())
    }

    /// Removes the scalar value that starts at byte offset `idx`.
    pub fn remove(&mut self, idx: usize)
        requires
            old(self).wf(),
            is_boundary(old(self)@, idx as int),
            idx < old(self).byte_len(),
        ensures
            final(self).wf(),
            final(self).char_len == old(self).char_len - 1,
            forall|k: int|
                0 <= k < old(self)@.len() && byte_pos(old(self)@, k) == idx ==> final(self)@ == old(self)@.remove(
                    k,
                ),
    {
        let ghost s = self@;
        proof {
            let k = choose|k: int| 0 <= k <= s.len() && byte_pos(s, k) == idx;
            lemma_byte_pos_full(s);
            if k == s.len() {
                assert(false);
            }
        }
        string_remove(&mut self.data, idx);
        self.char_len = self.char_len - 1;
    }

    /// Cuts the line at byte offset `idx`: keeps what comes before and
    /// returns the rest.
    pub fn split_at(&mut self, idx: usize) -> (r: Line)
        requires
            old(self).wf(),
            is_boundary(old(self)@, idx as int),
        ensures
            final(self).wf(),
            r.wf(),
            forall|k: int|
                0 <= k <= old(self)@.len() && byte_pos(old(self)@, k) == idx ==> final(self)@ == old(self)@.take(k)
                    && r@ == old(self)@.skip(k),
    {
        let rest = string_split_off(&mut self.data, idx);
        self.char_len = chars_of(self.data.as_str()).len();
        Line::from_string(rest)
    }

    /// Removes up to `max` leading spaces and returns how many it removed.
    pub fn back_tab(&mut self, max: usize) -> (r: usize)
        requires
            old(self).wf(),
        ensures
            final(self).wf(),
            r == leading_spaces(old(self)@, max as nat),
            r <= old(self)@.len(),
            final(self).char_len == old(self).char_len - r,
            final(self)@ == old(self)@.skip(r as int),
    {
        let ghost s = self@;
        let mut count: usize = 0;
        while count < max && self.char_len > 0 && self.data.as_str().get_char(0) == ' '
            invariant
                self.wf(),
                count <= max,
                count <= s.len(),
                self@ == s.skip(count as int),
                leading_spaces(s, max as nat) == count + leading_spaces(self@, (max - count) as nat),
            decreases self.char_len,
        {
            let ghost before = self@;
            proof {
                lemma_byte_pos_zero(before);
                lemma_byte_pos_step(before, 0);
            }
            self.remove(0);
            assert(self@ =~= before.drop_first());
            assert(self@ =~= s.skip(count + 1));
            count = count + 1;
        }
        count
    }

    /// Appends `s`.
    pub fn push_str(&mut self, s: &str)
        requires
            old(self).wf(),
            old(self).char_len + s@.len() <= usize::MAX,
        ensures
            final(self).wf(),
            final(self).char_len == old(self).char_len + s@.len(),
            final(self)@ == old(self)@ + s@,
    {
        let n = chars_of(s).len();
        self.char_len = self.char_len + n;
        string_push_str(&mut self.data, s);
    }

    /// Inserts `c` at byte offset `idx`.
    pub fn insert(&mut self, idx: usize, c: char)
        requires
            old(self).wf(),
            is_boundary(old(self)@, idx as int),
            old(self).char_len < usize::MAX,
        ensures
            final(self).wf(),
            final(self).char_len == old(self).char_len + 1,
            forall|k: int|
                0 <= k <= old(self)@.len() && byte_pos(old(self)@, k) == idx ==> final(self)@ == old(self)@.insert(
                    k,
                    c,
                ),
    {
        string_insert(&mut self.data, idx, c);
        self.char_len = self.char_len + 1;
    }

    /// Inserts `s` at byte offset `idx`.
    pub fn insert_str(&mut self, idx: usize, s: &str)
        requires
            old(self).wf(),
            is_boundary(old(self)@, idx as int),
            old(self).char_len + s@.len() <= usize::MAX,
        ensures
            final(self).wf(),
            final(self).char_len == old(self).char_len + s@.len(),
            forall|k: int|
                0 <= k <= old(self)@.len() && byte_pos(old(self)@, k) == idx ==> final(self)@ == old(self)@.take(k)
                    + s@ + old(self)@.skip(k),
    {
        let n = chars_of(s).len();
        string_insert_str(&mut self.data, idx, s);
        self.char_len = self.char_len + n;
    }

    /// Byte offset of the scalar value with index `idx`; an index past the
    /// end gives the length of the line.
    pub fn get_char_pos(&self, idx: usize) -> (r: usize)
        ensures
            r == byte_pos(self@, if idx <= self@.len() { idx as int } else { self@.len() as int }),
    {
        let chars = chars_of(self.data.as_str());
        let total = str_byte_len(self.data.as_str());
        let k = if idx <= chars.len() {
            idx
        } else {
            chars.len()
        };
        offset_of(&chars, total, k)
    }

    /// Byte offsets for a span of scalar values: the first is that of index
    /// `first`, the second that of index `last - first` (of index 1 when the
    /// span is empty and `last` is not 0), each clamped to the line's end.
    pub fn get_char_span(&self, first: usize, last: usize) -> (r: (usize, usize))
        requires
            first <= last,
        ensures
            r.0 == byte_pos(self@, if first <= self@.len() { first as int } else { self@.len() as int }),
            last == 0 ==> r.1 == 0,
            last > 0 ==> ({
                let n = if last - first >= 1 { (last - first) as int } else { 1int };
                r.1 == byte_pos(self@, if n <= self@.len() { n } else { self@.len() as int })
            }),
    {
        let span = last - first;
        let chars = chars_of(self.data.as_str());
        let total = str_byte_len(self.data.as_str());
        let f = if first <= chars.len() {
            first
        } else {
            chars.len()
        };
        let start = offset_of(&chars, total, f);
        let end = if last == 0 {
            proof {
                lemma_byte_pos_zero(chars@);
            }
            0
        } else {
            let n = if span >= 1 {
                span
            } else {
                1
            };
            let n = if n <= chars.len() {
                n
            } else {
                chars.len()
            };
            offset_of(&chars, total, n)
        };
        (start, end)
    }

    /// The nearest boundaries around byte offset `loc`: the last one before
    /// it (`0` when `loc` is `0`) and the first one after it (`loc` itself at
    /// the end of the line).
    pub fn get_next_and_prev_chars(&self, loc: usize) -> (r: (usize, usize))
        requires
            loc <= self.byte_len(),
        ensures
            loc == 0 ==> r.0 == 0,
            loc > 0 ==> is_boundary(self@, r.0 as int) && r.0 < loc && forall|k: int|
                0 <= k <= self@.len() && byte_pos(self@, k) < loc ==> byte_pos(self@, k) <= r.0,
            loc == self.byte_len() ==> r.1 == loc,
            loc < self.byte_len() ==> is_boundary(self@, r.1 as int) && r.1 > loc && forall|k: int|
                0 <= k <= self@.len() && byte_pos(self@, k) > loc ==> byte_pos(self@, k) >= r.1,
            forall|k: int|
                0 < k <= self@.len() && #[trigger] byte_pos(self@, k) == loc ==> r.0 == byte_pos(self@, k - 1),
            forall|k: int|
                0 <= k < self@.len() && #[trigger] byte_pos(self@, k) == loc ==> r.1 == byte_pos(self@, k + 1),
    {
        let chars = chars_of(self.data.as_str());
        let total = str_byte_len(self.data.as_str());
        let ghost s = chars@;
        proof {
            lemma_byte_pos_zero(s);
            lemma_byte_pos_full(s);
        }
        let mut prev: usize = 0;
        if loc > 0 {
            let mut j: usize = 0;
            let mut pos: usize = 0;
            loop
                invariant
                    s == self@,
                    chars@ == s,
                    total == byte_len(s),
                    byte_pos(s, s.len() as int) == total,
                    0 < loc <= total,
                    j <= s.len(),
                    pos == byte_pos(s, j as int),
                    pos < loc,
                ensures
                    is_boundary(s, prev as int),
                    prev < loc,
                    forall|k: int| 0 <= k <= s.len() && byte_pos(s, k) < loc ==> byte_pos(s, k) <= prev,
                    forall|k: int|
                        0 < k <= s.len() && #[trigger] byte_pos(s, k) == loc ==> prev == byte_pos(s, k - 1),
                decreases s.len() - j,
            {
                proof {
                    if j == s.len() {
                        assert(false);
                    }
                    lemma_byte_pos_step(s, j as int);
                    lemma_byte_pos_le(s, j + 1, s.len() as int);
                }
                let np = pos + char_width_of(chars[j]);
                if np >= loc {
                    proof {
                        assert forall|k: int| 0 <= k <= s.len() && byte_pos(s, k) < loc implies byte_pos(
                            s,
                            k,
                        ) <= pos by {
                            if k > j {
                                lemma_byte_pos_le(s, j + 1, k);
                            }
                            lemma_byte_pos_le(s, k, j as int);
                        }
                        assert forall|k: int| 0 < k <= s.len() && #[trigger] byte_pos(s, k) == loc implies pos
                            == byte_pos(s, k - 1) by {
                            if k - 1 > j {
                                lemma_byte_pos_mono(s, j + 1, k);
                            }
                            if k - 1 < j {
                                lemma_byte_pos_le(s, k, j as int);
                            }
                        }
                    }
                    prev = pos;
                    assert(byte_pos(s, j as int) == prev);
                    break;
                }
                pos = np;
                assert(j < chars.len());
                j = j + 1;
            }
        }
        let mut next: usize = loc;
        proof {
            if loc == total {
                assert forall|k: int| 0 <= k < s.len() && #[trigger] byte_pos(s, k) == loc implies next
                    == byte_pos(s, k + 1) by {
                    lemma_byte_pos_mono(s, k, s.len() as int);
                }
            }
        }
        if loc < total {
            let mut m: usize = 0;
            let mut q: usize = 0;
            loop
                invariant
                    s == self@,
                    chars@ == s,
                    total == byte_len(s),
                    byte_pos(s, s.len() as int) == total,
                    loc < total,
                    m <= s.len(),
                    q == byte_pos(s, m as int),
                    q <= loc,
                ensures
                    is_boundary(s, next as int),
                    next > loc,
                    forall|k: int| 0 <= k <= s.len() && byte_pos(s, k) > loc ==> byte_pos(s, k) >= next,
                    forall|k: int|
                        0 <= k < s.len() && #[trigger] byte_pos(s, k) == loc ==> next == byte_pos(s, k + 1),
                decreases s.len() - m,
            {
                proof {
                    if m == s.len() {
                        assert(false);
                    }
                    lemma_byte_pos_step(s, m as int);
                    lemma_byte_pos_le(s, m + 1, s.len() as int);
                }
                let nq = q + char_width_of(chars[m]);
                if nq > loc {
                    proof {
                        assert forall|k: int| 0 <= k <= s.len() && byte_pos(s, k) > loc implies byte_pos(
                            s,
                            k,
                        ) >= nq by {
                            if k <= m {
                                lemma_byte_pos_le(s, k, m as int);
                            } else {
                                lemma_byte_pos_le(s, m + 1, k);
                            }
                        }
                        assert forall|k: int| 0 <= k < s.len() && #[trigger] byte_pos(s, k) == loc implies nq
                            == byte_pos(s, k + 1) by {
                            if k > m {
                                lemma_byte_pos_mono(s, m + 1, k);
                            }
                            if k < m {
                                lemma_byte_pos_mono(s, k + 1, m + 1);
                                lemma_byte_pos_step(s, k);
                                lemma_byte_pos_le(s, k + 1, m as int);
                            }
                        }
                    }
                    next = nq;
                    assert(byte_pos(s, m + 1) == next);
                    break;
                }
                q = nq;
                m = m + 1;
            }
        }
        (prev, next)
    }
}

} // verus!
