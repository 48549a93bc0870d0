//! Matrices written as text: a table with one row to a line, the entries
//! parted by bars and blanks, as in
//!
//! ```text
//! | 1 |  2   |
//! | 3 | -4.5 |
//! ```
//!
//! The text is taken byte by byte. A line ends with a line feed; blanks,
//! tabs and the like at either end of a line do not count; every bar that
//! is followed by a blank is taken out together with the blank; what is
//! left falls into words at the blanks, and every word that spells a
//! number is an entry. Words that spell no number are passed over, so a
//! bar that closes a row does no harm.
use super::Matrix;
use crate::math::arithmetic::{functional, is_spelled, spelled, Arithmetic};
use vstd::prelude::*;

verus! {

/// The byte of a line feed.
pub const LINE_FEED: u8 = 10;

/// The byte of a bar.
pub const BAR: u8 = 124;

/// The byte of a blank.
pub const BLANK: u8 = 32;

/// Why a text is no matrix.
#[derive(Clone, Copy, Debug, PartialEq, Eq, Structural)]
pub enum TextError {
    /// The text has no line.
    Empty,
    /// The rows are not all as long as the first.
    Ragged,
    /// The matrix would have more entries than can be counted.
    TooLarge,
}

/// Whether the byte is white space: a blank, a tab, a line feed, a vertical
/// tab, a form feed or a carriage return.
pub open spec fn spec_is_space(byte: u8) -> bool {
    byte == 32 || (9 <= byte && byte <= 13)
}

/// Where the line that begins at `i` ends: at the next line feed, or with
/// the text.
pub open spec fn line_end(s: Seq<u8>, i: int) -> int
    decreases s.len() - i,
{
    if i >= s.len() || s[i] == LINE_FEED {
        i
    } else {
        line_end(s, i + 1)
    }
}

/// The first byte from `i` on that is no white space, or the end of the
/// text.
pub open spec fn skip_spaces(s: Seq<u8>, i: int) -> int
    decreases s.len() - i,
{
    if i >= s.len() || !spec_is_space(s[i]) {
        i
    } else {
        skip_spaces(s, i + 1)
    }
}

/// The end of the text without the white space before `j` that closes it:
/// not before `from`.
pub open spec fn back_spaces(s: Seq<u8>, from: int, j: int) -> int
    decreases j,
{
    if j <= from || j <= 0 || j > s.len() || !spec_is_space(s[j - 1]) {
        j
    } else {
        back_spaces(s, from, j - 1)
    }
}

/// The text without the white space at either end.
pub open spec fn trimmed(s: Seq<u8>) -> Seq<u8> {
    let a = skip_spaces(s, 0);
    if a >= s.len() {
        Seq::empty()
    } else {
        s.subrange(a, back_spaces(s, a, s.len() as int))
    }
}

/// The text from `i` on without the bars that are followed by a blank, and
/// without those blanks.
pub open spec fn without_bars(s: Seq<u8>, i: int) -> Seq<u8>
    decreases s.len() - i,
{
    if i >= s.len() || i < 0 {
        Seq::empty()
    } else if i + 1 < s.len() && s[i] == BAR && s[i + 1] == BLANK {
        without_bars(s, i + 2)
    } else {
        seq![s[i]] + without_bars(s, i + 1)
    }
}

/// Where the word that begins at `i` ends: at the next white space, or with
/// the text.
pub open spec fn word_end(s: Seq<u8>, i: int) -> int
    decreases s.len() - i,
{
    if i >= s.len() || spec_is_space(s[i]) {
        i
    } else {
        word_end(s, i + 1)
    }
}

/// The words of the text from `i` on: the stretches without white space.
pub open spec fn words(s: Seq<u8>, i: int) -> Seq<Seq<u8>>
    decreases s.len() - i,
{
    let a = skip_spaces(s, i);
    if a >= s.len() || a < i || i < 0 {
        Seq::empty()
    } else {
        let e = word_end(s, a);
        if e <= a || e > s.len() {
            Seq::empty()
        } else {
            seq![s.subrange(a, e)] + words(s, e)
        }
    }
}

/// The numbers that the words from the `k`th on spell, in order; words
/// that spell none are passed over.
pub open spec fn numbers<T, A: Arithmetic<T>>(arith: &A, ws: Seq<Seq<u8>>, k: int) -> Seq<T>
    decreases ws.len() - k,
{
    if k >= ws.len() || k < 0 {
        Seq::empty()
    } else {
        match spelled(arith, ws[k]) {
            Some(n) => seq![n] + numbers(arith, ws, k + 1),
            None => numbers(arith, ws, k + 1),
        }
    }
}

/// The entries of the row that a line shows.
pub open spec fn row_of<T, A: Arithmetic<T>>(arith: &A, line: Seq<u8>) -> Seq<T> {
    numbers(arith, words(without_bars(trimmed(line), 0), 0), 0)
}

/// The rows that the lines of the text from `i` on show.
pub open spec fn rows<T, A: Arithmetic<T>>(arith: &A, s: Seq<u8>, i: int) -> Seq<Seq<T>>
    decreases s.len() - i,
{
    if i >= s.len() || i < 0 {
        Seq::empty()
    } else {
        let e = line_end(s, i);
        if e < i || e > s.len() {
            Seq::empty()
        } else if e == s.len() {
            seq![row_of(arith, s.subrange(i, e))]
        } else {
            seq![row_of(arith, s.subrange(i, e))] + rows(arith, s, e + 1)
        }
    }
}

/// The rows laid end to end, from the `k`th on.
pub open spec fn laid_out<T>(rs: Seq<Seq<T>>, k: int) -> Seq<T>
    decreases rs.len() - k,
{
    if k >= rs.len() || k < 0 {
        Seq::empty()
    } else {
        rs[k] + laid_out(rs, k + 1)
    }
}

/// Whether all rows are as long as the first.
pub open spec fn even<T>(rs: Seq<Seq<T>>) -> bool {
    forall|k: int| 0 <= k < rs.len() ==> (#[trigger] rs[k]).len() == rs[0].len()
}

/// Whether the byte is white space.
pub fn is_space(byte: u8) -> (r: bool)
    ensures
        r == spec_is_space(byte),
{
    byte == 32 || (9 <= byte && byte <= 13)
}

/// The text without the white space at either end.
fn trim(s: &Vec<u8>) -> (out: Vec<u8>)
    ensures
        out@ == trimmed(s@),
{
    let mut a: usize = 0;
    while a < s.len() && is_space(s[a])
        invariant
            a <= s.len(),
            skip_spaces(s@, a as int) == skip_spaces(s@, 0),
        decreases s.len() - a,
    {
        a += 1;
    }
    let mut out: Vec<u8> = Vec::new();
    if a >= s.len() {
        return out;
    }
    let mut e: usize = s.len();
    while e > a && is_space(s[e - 1])
        invariant
            a <= e <= s.len(),
            back_spaces(s@, a as int, e as int) == back_spaces(s@, a as int, s.len() as int),
        decreases e,
    {
        e -= 1;
    }
    let mut i: usize = a;
    while i < e
        invariant
            a <= i <= e,
            e <= s.len(),
            out@ == s@.subrange(a as int, i as int),
        decreases e - i,
    {
        out.push(s[i]);
        proof {
            assert(s@.subrange(a as int, i + 1) =~= s@.subrange(a as int, i as int).push(s@[i as int]));
        }
        i += 1;
    }
    out
}

/// The text without the bars that are followed by a blank.
fn strip_bars(s: &Vec<u8>) -> (out: Vec<u8>)
    ensures
        out@ == without_bars(s@, 0),
{
    let mut out: Vec<u8> = Vec::new();
    let mut i: usize = 0;
    proof {
        assert(out@ + without_bars(s@, 0) =~= without_bars(s@, 0));
    }
    while i < s.len()
        invariant
            i <= s.len(),
            out@ + without_bars(s@, i as int) == without_bars(s@, 0),
        decreases s.len() - i,
    {
        if i + 1 < s.len() && s[i] == BAR && s[i + 1] == BLANK {
            i += 2;
        } else {
            let ghost before = out@;
            out.push(s[i]);
            proof {
                assert(out@ + without_bars(s@, i + 1) =~= before + (seq![s@[i as int]]
                    + without_bars(s@, i + 1)));
            }
            i += 1;
        }
    }
    proof {
        assert(out@ + Seq::<u8>::empty() =~= out@);
    }
    out
}

/// The numbers that the words of the text spell, in order.
fn read_row<T: Copy, A: Arithmetic<T>>(s: &Vec<u8>, arith: &A) -> (row: Vec<T>)
    ensures
        functional(arith) ==> row@ == numbers(arith, words(s@, 0), 0),
{
    let mut row: Vec<T> = Vec::new();
    let mut i: usize = 0;
    let ghost all = words(s@, 0);
    let ghost mut k: int = 0;
    proof {
        assert(row@ + numbers(arith, all, 0) =~= numbers(arith, all, 0));
        assert(words(s@, 0).skip(0) =~= words(s@, 0));
    }
    loop
        invariant
            i <= s.len(),
            all == words(s@, 0),
            0 <= k <= all.len(),
            words(s@, i as int) == all.skip(k),
            functional(arith) ==> row@ + numbers(arith, all, k) == numbers(arith, all, 0),
        decreases s.len() - i,
    {
        let mut a: usize = i;
        while a < s.len() && is_space(s[a])
            invariant
                i <= a <= s.len(),
                skip_spaces(s@, a as int) == skip_spaces(s@, i as int),
            decreases s.len() - a,
        {
            a += 1;
        }
        if a >= s.len() {
            proof {
                assert(words(s@, i as int) =~= Seq::<Seq<u8>>::empty());
                assert(all.skip(k).len() == 0);
                assert(k == all.len());
                assert(row@ + Seq::<T>::empty() =~= row@);
            }
            return row;
        }
        let mut e: usize = a;
        let mut word: Vec<u8> = Vec::new();
        while e < s.len() && !is_space(s[e])
            invariant
                a <= e <= s.len(),
                word_end(s@, e as int) == word_end(s@, a as int),
                word@ == s@.subrange(a as int, e as int),
            decreases s.len() - e,
        {
            word.push(s[e]);
            proof {
                assert(s@.subrange(a as int, e + 1) =~= s@.subrange(a as int, e as int).push(
                    s@[e as int],
                ));
            }
            e += 1;
        }
        proof {
            assert(e > a);
            let rest = words(s@, e as int);
            assert(words(s@, i as int) == seq![word@] + rest);
            assert((seq![word@] + rest)[0] == word@);
            assert(all.skip(k).len() > 0);
            assert(k < all.len());
            assert(all.skip(k)[0] == all[k]);
            assert(all[k] == word@);
            assert((seq![word@] + rest).skip(1) =~= rest);
            assert(all.skip(k).skip(1) =~= all.skip(k + 1));
            assert(rest == all.skip(k + 1));
        }
        let n = arith.parse(&word);
        let ghost before = row@;
        match n {
            Some(v) => {
                row.push(v);
            },
            None => {},
        }
        proof {
            if functional(arith) {
                assert(n == spelled(arith, all[k]));
                match n {
                    Some(v) => {
                        assert(row@ + numbers(arith, all, k + 1) =~= before + (seq![v] + numbers(
                            arith,
                            all,
                            k + 1,
                        )));
                    },
                    None => {},
                }
            }
            k = k + 1;
        }
        i = e;
    }
}

/// The matrix that the text shows.
pub fn parse<T: Copy, A: Arithmetic<T>>(text: &Vec<u8>, arith: &A) -> (m: Result<Matrix<T>, TextError>)
    ensures
        functional(arith) ==> {
            let rs = rows(arith, text@, 0);
            match m {
                Ok(matrix) => {
                    &&& rs.len() > 0
                    &&& even(rs)
                    &&& matrix.spec_height() == rs.len()
                    &&& matrix.spec_width() == rs[0].len()
                    &&& matrix@ == laid_out(rs, 0)
                    &&& matrix.wf()
                },
                Err(TextError::Empty) => rs.len() == 0,
                Err(TextError::Ragged) => rs.len() > 0 && !even(rs),
                Err(TextError::TooLarge) => rs.len() > 0 && even(rs) && rs.len() * rs[0].len()
                    > usize::MAX,
            }
        },
{
    let mut data: Vec<T> = Vec::new();
    let mut height: usize = 0;
    let mut width: usize = 0;
    let mut ragged = false;
    let mut i: usize = 0;
    let ghost all = rows(arith, text@, 0);
    let ghost mut k: int = 0;
    proof {
        assert(all.skip(0) =~= all);
    }
    while i < text.len()
        invariant
            i <= text.len(),
            all == rows(arith, text@, 0),
            0 <= k,
            functional(arith) ==> k <= all.len(),
            height == k,
            height <= i,
            functional(arith) ==> rows(arith, text@, i as int) == all.skip(k),
            functional(arith) && k > 0 ==> width == all[0].len(),
            functional(arith) ==> ragged == !(forall|j: int|
                0 <= j < k ==> (#[trigger] all[j]).len() == all[0].len()),
            functional(arith) && !ragged ==> data@ + laid_out(all, k) == laid_out(all, 0),
            functional(arith) && !ragged ==> data.len() == k * width,
        decreases text.len() - i,
    {
        let mut e: usize = i;
        let mut line: Vec<u8> = Vec::new();
        while e < text.len() && text[e] != LINE_FEED
            invariant
                i <= e <= text.len(),
                line_end(text@, e as int) == line_end(text@, i as int),
                line@ == text@.subrange(i as int, e as int),
            decreases text.len() - e,
        {
            line.push(text[e]);
            proof {
                assert(text@.subrange(i as int, e + 1) =~= text@.subrange(i as int, e as int).push(
                    text@[e as int],
                ));
            }
            e += 1;
        }
        let bare = strip_bars(&trim(&line));
        let row = read_row(&bare, arith);
        let next: usize = if e < text.len() {
            e + 1
        } else {
            e
        };
        proof {
            if functional(arith) {
                assert(row@ == row_of(arith, line@));
                let rest = rows(arith, text@, next as int);
                assert(rows(arith, text@, i as int) == seq![row@] + rest) by {
                    if e == text.len() {
                        assert(rest =~= Seq::<Seq<T>>::empty());
                        assert(seq![row@] + rest =~= seq![row@]);
                    }
                }
                assert((seq![row@] + rest)[0] == row@);
                assert(all.skip(k).len() > 0);
                assert(k < all.len());
                assert(all.skip(k)[0] == all[k]);
                assert(all[k] == row@);
                assert((seq![row@] + rest).skip(1) =~= rest);
                assert(all.skip(k).skip(1) =~= all.skip(k + 1));
                assert(rest == all.skip(k + 1));
            }
        }
        if height == 0 {
            width = row.len();
        }
        if row.len() != width {
            ragged = true;
        }
        if !ragged {
            let ghost before = data@;
            let mut j: usize = 0;
            while j < row.len()
                invariant
                    j <= row.len(),
                    data@ == before + row@.take(j as int),
                decreases row.len() - j,
            {
                data.push(row[j]);
                proof {
                    assert(row@.take(j + 1) =~= row@.take(j as int).push(row@[j as int]));
                    assert(data@ =~= before + row@.take(j + 1));
                }
                j += 1;
            }
            proof {
                assert(row@.take(row.len() as int) =~= row@);
                if functional(arith) {
                    assert(data@ + laid_out(all, k + 1) =~= before + (all[k] + laid_out(all, k + 1)));
                    assert(data.len() == (k + 1) * width) by (nonlinear_arith)
                        requires
                            data.len() == k * width + width,
                    ;
                }
            }
        }
        proof {
            k = k + 1;
        }
        height += 1;
        i = next;
    }
    proof {
        if functional(arith) {
            assert(rows(arith, text@, i as int) =~= Seq::<Seq<T>>::empty());
            assert(k == all.len());
        }
    }
    if height == 0 {
        return Err(TextError::Empty);
    }
    if ragged {
        return Err(TextError::Ragged);
    }
    proof {
        if functional(arith) {
            assert(data@ + Seq::<T>::empty() =~= data@);
        }
    }
    let cells = width.checked_mul(height);
    match cells {
        None => Err(TextError::TooLarge),
        Some(n) => {
            if n != data.len() {
                return Err(TextError::TooLarge);
            }
            Ok(Matrix::new_with_data(width, height, data))
        },
    }
}

} // verus!
