//! The plain text form of a raster: a header, then three samples for every
//! cell, row after row, as decimal numbers.
//!
//! The header is the magic word of the plain format, the width and the
//! height, and the largest sample, 255. The samples follow, parted by single blanks. A new
//! line is begun with the first sample of every row of the raster, and also
//! wherever the line would otherwise come to 70 characters with the next
//! sample and a blank behind it.
use vstd::prelude::*;

verus! {

/// The length at which a line of samples is broken.
pub const LINE_LIMIT: usize = 70;

/// The character of a decimal digit.
pub open spec fn spec_digit(d: int) -> char {
    if d == 0 {
        '0'
    } else if d == 1 {
        '1'
    } else if d == 2 {
        '2'
    } else if d == 3 {
        '3'
    } else if d == 4 {
        '4'
    } else if d == 5 {
        '5'
    } else if d == 6 {
        '6'
    } else if d == 7 {
        '7'
    } else if d == 8 {
        '8'
    } else {
        '9'
    }
}

/// The decimal numeral of `n`, without leading zeros.
pub open spec fn decimal(n: nat) -> Seq<char>
    decreases n,
{
    if n < 10 {
        seq![spec_digit(n as int)]
    } else {
        decimal(n / 10).push(spec_digit((n % 10) as int))
    }
}

/// The header, up to but without the line break that ends it.
pub open spec fn header(width: nat, height: nat) -> Seq<char> {
    seq!['P', '3', '\n'] + decimal(width) + seq![' '] + decimal(height) + seq!['\n', '2', '5', '5']
}

/// How far the current line is filled after the first `n` samples: the
/// lengths of the numerals on it, and one for the blank behind each.
pub open spec fn line_fill(samples: Seq<u8>, per_row: int, n: int) -> int
    decreases n,
{
    if n <= 0 {
        0
    } else {
        let i = n - 1;
        let room = decimal(samples[i] as nat).len() as int + 1;
        let before = line_fill(samples, per_row, i);
        if before + room >= LINE_LIMIT || i % per_row == 0 {
            room
        } else {
            before + room
        }
    }
}

/// Whether a new line is begun with sample `i`.
pub open spec fn breaks_before(samples: Seq<u8>, per_row: int, i: int) -> bool {
    line_fill(samples, per_row, i) + decimal(samples[i] as nat).len() + 1 >= LINE_LIMIT || i
        % per_row == 0
}

/// The text of the first `n` samples: before each a line break or a blank,
/// then its numeral.
pub open spec fn body(samples: Seq<u8>, per_row: int, n: int) -> Seq<char>
    decreases n,
{
    if n <= 0 {
        Seq::empty()
    } else {
        let i = n - 1;
        body(samples, per_row, i).push(
            if breaks_before(samples, per_row, i) {
                '\n'
            } else {
                ' '
            },
        ) + decimal(samples[i] as nat)
    }
}

/// The text of a raster `width` wide and `height` high with the given
/// samples, three to a cell.
pub open spec fn ppm_text(width: nat, height: nat, samples: Seq<u8>) -> Seq<char> {
    header(width, height) + body(samples, 3 * (width as int), samples.len() as int)
}

/// `String::push`: the string grows by the one character at its end.
pub assume_specification[ String::push ](s: &mut String, ch: char)
    ensures
        final(s)@ == old(s)@.push(ch),
;

/// The character of the decimal digit `d`.
fn digit(d: usize) -> (c: char)
    requires
        d < 10,
    ensures
        c == spec_digit(d as int),
{
    if d == 0 {
        '0'
    } else if d == 1 {
        '1'
    } else if d == 2 {
        '2'
    } else if d == 3 {
        '3'
    } else if d == 4 {
        '4'
    } else if d == 5 {
        '5'
    } else if d == 6 {
        '6'
    } else if d == 7 {
        '7'
    } else if d == 8 {
        '8'
    } else {
        '9'
    }
}

/// A numeral is at least one digit long, and that of a sample at most three.
pub proof fn lemma_decimal_len(n: nat)
    ensures
        decimal(n).len() >= 1,
        n < 10 ==> decimal(n).len() == 1,
        10 <= n < 100 ==> decimal(n).len() == 2,
        100 <= n < 1000 ==> decimal(n).len() == 3,
    decreases n,
{
    reveal_with_fuel(decimal, 3);
    if n >= 10 {
        lemma_decimal_len(n / 10);
    }
}

/// No line of samples comes to the limit: with a blank counted behind every
/// numeral, a line is filled to less than 70 characters.
pub proof fn lemma_line_fill_bounded(samples: Seq<u8>, per_row: int, n: int)
    requires
        0 <= n <= samples.len(),
    ensures
        0 <= line_fill(samples, per_row, n) < LINE_LIMIT,
    decreases n,
{
    if n > 0 {
        lemma_line_fill_bounded(samples, per_row, n - 1);
        lemma_decimal_len(samples[n - 1] as nat);
    }
}

/// Appends the decimal numeral of `n` and says how long it is.
pub(crate) fn push_decimal(out: &mut String, n: usize) -> (len: usize)
    ensures
        final(out)@ == old(out)@ + decimal(n as nat),
        len == decimal(n as nat).len(),
        len <= 20,
    decreases n,
{
    if n < 10 {
        out.push(digit(n));
        proof {
            assert(out@ =~= old(out)@ + decimal(n as nat));
        }
        1
    } else {
        let len = push_decimal(out, n / 10);
        out.push(digit(n % 10));
        proof {
            assert(out@ =~= old(out)@ + decimal(n as nat));
            lemma_numeral_bound(n as nat);
        }
        len + 1
    }
}

/// The numeral of a machine word has at most twenty digits.
proof fn lemma_numeral_bound(n: nat)
    requires
        n <= usize::MAX,
    ensures
        decimal(n).len() <= 20,
{
    reveal_with_fuel(decimal, 21);
    assert(n <= 18446744073709551615);
}

/// The text of a raster `width` wide and `height` high with the given
/// samples.
pub fn text(width: usize, height: usize, samples: &Vec<u8>) -> (out: String)
    requires
        samples.len() == 3 * width * height,
    ensures
        out@ == ppm_text(width as nat, height as nat, samples@),
{
    let mut out = String::new();
    out.push('P');
    out.push('3');
    out.push('\n');
    push_decimal(&mut out, width);
    out.push(' ');
    push_decimal(&mut out, height);
    out.push('\n');
    out.push('2');
    out.push('5');
    out.push('5');
    proof {
        assert(out@ =~= header(width as nat, height as nat));
    }
    let ghost head = out@;
    let mut size: usize = 0;
    let mut i: usize = 0;
    while i < samples.len()
        invariant
            i <= samples.len(),
            samples.len() == 3 * width * height,
            size == line_fill(samples@, 3 * width, i as int),
            size < LINE_LIMIT,
            out@ == head + body(samples@, 3 * width, i as int),
        decreases samples.len() - i,
    {
        proof {
            assert(3 * width > 0 && 3 * width <= usize::MAX) by (nonlinear_arith)
                requires
                    3 * width * height == samples.len(),
                    samples.len() > 0,
                    samples.len() <= usize::MAX,
                    width >= 0,
                    height >= 0,
            ;
            lemma_decimal_len(samples@[i as int] as nat);
        }
        let sample = samples[i];
        let len: usize = if sample < 10 {
            1
        } else if sample < 100 {
            2
        } else {
            3
        };
        let per_row = 3 * width;
        let ghost before = out@;
        if size + len + 1 >= LINE_LIMIT || i % per_row == 0 {
            size = 0;
            out.push('\n');
        } else {
            out.push(' ');
        }
        size = size + len + 1;
        push_decimal(&mut out, sample as usize);
        proof {
            assert(out@ =~= head + body(samples@, 3 * width, i + 1));
        }
        i += 1;
    }
    out
}

} // verus!
