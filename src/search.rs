//! Plain, case-sensitive substring search over the lines of the buffer, from
//! the cursor onwards and wrapping around to the top.

use vstd::prelude::*;
use crate::buffer::lines_view;
use crate::line::Line;
use crate::strings::chars_of;

verus! {

/// `p` occurs in `t` at index `i`.
pub open spec fn occurs_at(t: Seq<char>, p: Seq<char>, i: int) -> bool {
    0 <= i && i + p.len() <= t.len() && t.subrange(i, i + p.len()) == p
}

/// Index of the first occurrence of `p` in `t` at `from` or later.
pub open spec fn first_match(t: Seq<char>, p: Seq<char>, from: int) -> Option<int>
    decreases t.len() + 1 - from,
{
    if from < 0 || from + p.len() > t.len() {
        None
    } else if occurs_at(t, p, from) {
        Some(from)
    } else {
        first_match(t, p, from + 1)
    }
}

/// The first row in `lo..hi` where `p` occurs, with the index of its first
/// occurrence there.
pub open spec fn first_row_match(ls: Seq<Seq<char>>, p: Seq<char>, lo: int, hi: int) -> Option<
    (int, int),
>
    decreases hi - lo,
{
    if lo >= hi || lo < 0 || lo >= ls.len() {
        None
    } else {
        match first_match(ls[lo], p, 0) {
            Some(i) => Some((lo, i)),
            None => first_row_match(ls, p, lo + 1, hi),
        }
    }
}

/// Where a search for `p` from row `r`, column `c` lands: the rest of row
/// `r` from the cursor, then the rows below, then from the top through row
/// `r`.
pub open spec fn search_spec(ls: Seq<Seq<char>>, r: int, c: int, p: Seq<char>) -> Option<
    (int, int),
> {
    match first_match(ls[r], p, c) {
        Some(i) => Some((r, i)),
        None => match first_row_match(ls, p, r + 1, ls.len() as int) {
            Some(x) => Some(x),
            None => first_row_match(ls, p, 0, r + 1),
        },
    }
}

pub proof fn lemma_first_match_range(t: Seq<char>, p: Seq<char>, from: int)
    ensures
        first_match(t, p, from) is Some ==> from <= first_match(t, p, from)->0 && first_match(
            t,
            p,
            from,
        )->0 + p.len() <= t.len(),
    decreases t.len() + 1 - from,
{
    if !(from < 0 || from + p.len() > t.len()) && !occurs_at(t, p, from) {
        lemma_first_match_range(t, p, from + 1);
    }
}

pub proof fn lemma_first_row_match_range(ls: Seq<Seq<char>>, p: Seq<char>, lo: int, hi: int)
    ensures
        first_row_match(ls, p, lo, hi) matches Some((a, b)) ==> 0 <= lo <= a < hi && a < ls.len() && 0
            <= b <= ls[a].len(),
    decreases hi - lo,
{
    if !(lo >= hi || lo < 0 || lo >= ls.len()) {
        lemma_first_match_range(ls[lo], p, 0);
        if first_match(ls[lo], p, 0) is None {
            lemma_first_row_match_range(ls, p, lo + 1, hi);
        }
    }
}

/// A search lands inside the text.
pub proof fn lemma_search_range(ls: Seq<Seq<char>>, r: int, c: int, p: Seq<char>)
    requires
        0 <= r < ls.len(),
        0 <= c,
    ensures
        search_spec(ls, r, c, p) matches Some((a, b)) ==> 0 <= a < ls.len() && 0 <= b <= ls[a].len(),
{
    lemma_first_match_range(ls[r], p, c);
    lemma_first_row_match_range(ls, p, r + 1, ls.len() as int);
    lemma_first_row_match_range(ls, p, 0, r + 1);
}

fn occurs_here(t: &Vec<char>, p: &Vec<char>, i: usize) -> (r: bool)
    requires
        i + p@.len() <= t@.len(),
    ensures
        r == occurs_at(t@, p@, i as int),
{
    let mut j: usize = 0;
    while j < p.len()
        invariant
            j <= p@.len(),
            i + p@.len() <= t.len(),
            forall|k: int| 0 <= k < j ==> t@[i + k] == p@[k],
        decreases p@.len() - j,
    {
        if t[i + j] != p[j] {
            assert(t@.subrange(i as int, i + p@.len())[j as int] != p@[j as int]);
            return false;
        }
        j = j + 1;
    }
    assert(t@.subrange(i as int, i + p@.len()) =~= p@);
    true
}

/// Index of the first occurrence of `p` in `t` at `from` or later.
pub fn find_from(t: &Vec<char>, p: &Vec<char>, from: usize) -> (r: Option<usize>)
    ensures
        r is Some <==> first_match(t@, p@, from as int) is Some,
        r is Some ==> r->0 == first_match(t@, p@, from as int)->0,
{
    if from > t.len() || t.len() - from < p.len() {
        return None;
    }
    let mut i: usize = from;
    while p.len() <= t.len() - i
        invariant
            from <= i,
            i <= t@.len(),
            first_match(t@, p@, from as int) == first_match(t@, p@, i as int),
        decreases t@.len() - i,
    {
        proof {
            if p@.len() == 0 {
                assert(t@.subrange(i as int, i as int) =~= p@);
            }
        }
        if occurs_here(t, p, i) {
            return Some(i);
        }
        i = i + 1;
    }
    None
}

fn find_in_rows(lines: &Vec<Line>, p: &Vec<char>, lo: usize, hi: usize) -> (r: Option<(usize, usize)>)
    requires
        hi <= lines@.len(),
    ensures
        r is Some <==> first_row_match(lines_view(lines@), p@, lo as int, hi as int) is Some,
        r is Some ==> r.unwrap().0 == first_row_match(lines_view(lines@), p@, lo as int, hi as int).unwrap().0
            && r.unwrap().1 == first_row_match(lines_view(lines@), p@, lo as int, hi as int).unwrap().1,
{
    let ghost ls = lines_view(lines@);
    let mut row: usize = lo;
    while row < hi
        invariant
            lo <= row,
            hi <= lines@.len(),
            ls == lines_view(lines@),
            first_row_match(ls, p@, lo as int, hi as int) == first_row_match(ls, p@, row as int, hi as int),
        decreases hi - row,
    {
        let t = chars_of(lines[row].data.as_str());
        assert(t@ == ls[row as int]);
        match find_from(&t, p, 0) {
            Some(i) => {
                proof {
                    lemma_first_match_range(t@, p@, 0);
                }
                return Some((row, i));
            },
            None => {},
        }
        row = row + 1;
    }
    None
}

/// Where a search for `p` from row `row`, scalar-value column `col` lands.
pub fn search(lines: &Vec<Line>, row: usize, col: usize, p: &str) -> (r: Option<(usize, usize)>)
    requires
        row < lines.len(),
    ensures
        r == (match search_spec(lines_view(lines@), row as int, col as int, p@) {
            Some((a, b)) => Some((a as usize, b as usize)),
            None => None::<(usize, usize)>,
        }),
        r matches Some((a, b)) ==> a < lines@.len() && b <= lines@[a as int]@.len()
            && search_spec(lines_view(lines@), row as int, col as int, p@) == Some((a as int, b as int)),
        r is None ==> search_spec(lines_view(lines@), row as int, col as int, p@) is None,
{
    let ghost ls = lines_view(lines@);
    proof {
        lemma_search_range(ls, row as int, col as int, p@);
    }
    let pat = chars_of(p);
    let t = chars_of(lines[row].data.as_str());
    assert(t@ == ls[row as int]);
    proof {
        lemma_first_match_range(t@, pat@, col as int);
        lemma_first_row_match_range(ls, pat@, row + 1, ls.len() as int);
        lemma_first_row_match_range(ls, pat@, 0, row + 1);
    }
    match find_from(&t, &pat, col) {
        Some(i) => {
            assert(first_match(t@, pat@, col as int) == Some(i as int));
            Some((row, i))
        },
        None => match find_in_rows(lines, &pat, row + 1, lines.len()) {
            Some((a, b)) => {
                assert(first_row_match(ls, pat@, row + 1, ls.len() as int) == Some((a as int, b as int)));
                Some((a, b))
            },
            None => {
                let x = find_in_rows(lines, &pat, 0, row + 1);
                proof {
                    if x is Some {
                        let (a, b) = x.unwrap();
                        assert(first_row_match(ls, pat@, 0, row + 1) == Some((a as int, b as int)));
                    }
                }
                x
            },
        },
    }
}

} // verus!
