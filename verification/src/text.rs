//! Numbers as text, and text cut into lines.

use vstd::prelude::*;
use vstd::slice::slice_subrange;

verus! {

/// The byte of the digit `d`.
pub open spec fn digit(d: int) -> u8 {
    (48 + d) as u8
}

/// Whether the byte is a digit.
pub open spec fn is_digit(b: u8) -> bool {
    48 <= b <= 57
}

/// The number written in decimal, without sign or leading zeros.
pub open spec fn decimal(n: nat) -> Seq<u8>
    decreases n,
{
    if n < 10 {
        seq![digit(n as int)]
    } else {
        decimal(n / 10).push(digit((n % 10) as int))
    }
}

/// Whether the text is made of digits, and of at least one.
pub open spec fn all_digits(text: Seq<u8>) -> bool {
    &&& text.len() > 0
    &&& forall|i: int| 0 <= i < text.len() ==> is_digit(#[trigger] text[i])
}

/// The digit that a byte stands for; nought for a byte that is no digit.
pub open spec fn digit_value(b: u8) -> nat {
    if is_digit(b) {
        (b - 48) as nat
    } else {
        0
    }
}

/// The number that a text made of digits stands for; leading zeros count
/// for nothing.
pub open spec fn value_of(text: Seq<u8>) -> nat
    decreases text.len(),
{
    if text.len() == 0 {
        0
    } else {
        value_of(text.drop_last()) * 10 + digit_value(text.last())
    }
}

/// The text without the plus sign it may begin with.
pub open spec fn unsigned_part(text: Seq<u8>) -> Seq<u8> {
    if text.len() > 0 && text[0] == 43 {
        text.skip(1)
    } else {
        text
    }
}

/// The number that a text stands for, if it is the decimal form of a number
/// that fits in 32 bits: digits, at least one, with or without a plus sign
/// before them.
pub open spec fn parsed_u32(text: Seq<u8>) -> Option<u32> {
    let digits = unsigned_part(text);
    if all_digits(digits) && value_of(digits) <= u32::MAX {
        Some(value_of(digits) as u32)
    } else {
        None
    }
}

/// What a number is written as is made of digits and stands for the number.
pub proof fn lemma_decimal(n: nat)
    ensures
        all_digits(decimal(n)),
        value_of(decimal(n)) == n,
        decimal(n)[0] != 43,
    decreases n,
{
    if n < 10 {
        assert(decimal(n).drop_last() =~= Seq::<u8>::empty());
        assert(value_of(decimal(n).drop_last()) == 0);
    } else {
        lemma_decimal(n / 10);
        let shorter = decimal(n / 10);
        assert(decimal(n).drop_last() =~= shorter);
    }
}

/// A number that fits in 32 bits, written and read again, is the number.
pub proof fn lemma_decimal_round_trip(n: u32)
    ensures
        parsed_u32(decimal(n as nat)) == Some(n),
{
    lemma_decimal(n as nat);
}

/// A longer text of digits stands for no smaller number.
pub proof fn lemma_value_grows(text: Seq<u8>, k: int)
    requires
        0 <= k <= text.len(),
    ensures
        value_of(text.take(k)) <= value_of(text),
    decreases text.len() - k,
{
    if k < text.len() {
        lemma_value_grows(text, k + 1);
        assert(text.take(k + 1).drop_last() =~= text.take(k));
    } else {
        assert(text.take(k) =~= text);
    }
}

/// Writes a number in decimal at the end of `out`.
pub fn push_decimal(out: &mut Vec<u8>, n: u64)
    ensures
        final(out)@ == old(out)@ + decimal(n as nat),
    decreases n,
{
    if n >= 10 {
        push_decimal(out, n / 10);
    }
    out.push(48 + (n % 10) as u8);
    proof {
        if n < 10 {
            assert(out@ =~= old(out)@ + decimal(n as nat));
        } else {
            assert(out@ =~= old(out)@ + decimal(n as nat));
        }
    }
}

/// Reads a number that fits in 32 bits.
pub fn parse_u32(text: &[u8]) -> (value: Option<u32>)
    ensures
        value == parsed_u32(text@),
{
    let start: usize = if text.len() > 0 && text[0] == 43 {
        1
    } else {
        0
    };
    let ghost digits = unsigned_part(text@);
    assert(digits =~= text@.skip(start as int));
    if start == text.len() {
        return None;
    }
    let mut value: u64 = 0;
    let mut i: usize = start;
    while i < text.len()
        invariant
            start <= i <= text@.len(),
            start <= 1,
            digits == text@.skip(start as int),
            digits == unsigned_part(text@),
            forall|k: int| 0 <= k < i - start ==> is_digit(#[trigger] digits[k]),
            value == value_of(digits.take(i - start)),
            value <= u32::MAX,
        decreases text@.len() - i,
    {
        let b = text[i];
        if b < 48 || b > 57 {
            proof {
                assert(digits[i - start] == b);
                assert(!is_digit(digits[i - start]));
            }
            return None;
        }
        proof {
            assert(digits[i - start] == b);
            assert(digits.take(i - start + 1).drop_last() =~= digits.take(i - start));
        }
        let next: u64 = value * 10 + (b - 48) as u64;
        if next > 0xffff_ffff {
            proof {
                lemma_value_grows(digits, i - start + 1);
            }
            return None;
        }
        value = next;
        i = i + 1;
    }
    proof {
        assert(digits.take(i - start) =~= digits);
    }
    Some(value as u32)
}

/// The number written in decimal with noughts before it, as many as it
/// takes to fill `width` places; a number that is wider than that is
/// written as it is.
pub open spec fn padded(n: nat, width: nat) -> Seq<u8> {
    if decimal(n).len() >= width {
        decimal(n)
    } else {
        Seq::new((width - decimal(n).len()) as nat, |i: int| 48u8) + decimal(n)
    }
}

/// The number of digits of a number.
pub fn digits(n: u64) -> (count: usize)
    ensures
        count == decimal(n as nat).len(),
        1 <= count <= 20,
    decreases n,
{
    if n < 10 {
        1
    } else {
        proof {
            lemma_decimal_len(n as nat);
        }
        digits(n / 10) + 1
    }
}

/// A number below the `k`-th power of ten has no more than `k` digits; so
/// a number of 64 bits has no more than twenty.
pub proof fn lemma_decimal_len(n: nat)
    ensures
        n < 10 ==> decimal(n).len() == 1,
        n >= 10 ==> decimal(n).len() == decimal(n / 10).len() + 1,
        n <= u64::MAX ==> decimal(n).len() <= 20,
        decimal(n).len() >= 1,
    decreases n,
{
    if n >= 10 {
        lemma_decimal_len(n / 10);
        reveal_with_fuel(decimal, 21);
    }
}

/// Writes a number in decimal at the end of `out`, with noughts before it
/// to fill `width` places.
pub fn push_padded(out: &mut Vec<u8>, n: u64, width: usize)
    ensures
        final(out)@ == old(out)@ + padded(n as nat, width as nat),
{
    let count = digits(n);
    let mut written: usize = count;
    while written < width
        invariant
            count == decimal(n as nat).len(),
            count <= written,
            written <= width || written == count,
            out@ == old(out)@ + Seq::new((written - count) as nat, |i: int| 48u8),
        decreases width - written,
    {
        out.push(48);
        written = written + 1;
        proof {
            assert(out@ =~= old(out)@ + Seq::new((written - count) as nat, |i: int| 48u8));
        }
    }
    let ghost before = out@;
    push_decimal(out, n);
    proof {
        assert(out@ =~= old(out)@ + padded(n as nat, width as nat));
    }
}

/// The number of bytes before the first line feed of a text; the length of
/// the text if it has none.
pub open spec fn line_end(text: Seq<u8>) -> nat
    decreases text.len(),
{
    if text.len() == 0 || text[0] == 10 {
        0
    } else {
        1 + line_end(text.skip(1))
    }
}

/// A line without the carriage return it may end with.
pub open spec fn without_return(line: Seq<u8>) -> Seq<u8> {
    if line.len() > 0 && line.last() == 13 {
        line.drop_last()
    } else {
        line
    }
}

/// The lines of a text. A line ends with a line feed, or with a carriage
/// return and a line feed, neither of which belongs to the line; what
/// stands behind the last line feed is a line too, unless it is empty.
pub open spec fn lines_of(text: Seq<u8>) -> Seq<Seq<u8>>
    decreases text.len(),
{
    if text.len() == 0 {
        Seq::empty()
    } else {
        let end = line_end(text) as int;
        if end < text.len() {
            seq![without_return(text.take(end))] + lines_of(text.skip(end + 1))
        } else {
            seq![text]
        }
    }
}

/// The first line of a text ends where its first line feed stands.
pub proof fn lemma_line_end(text: Seq<u8>, k: int)
    requires
        0 <= k <= text.len(),
        forall|i: int| 0 <= i < k ==> #[trigger] text[i] != 10,
        k < text.len() ==> text[k] == 10,
    ensures
        line_end(text) == k,
    decreases k,
{
    if k > 0 {
        let rest = text.skip(1);
        assert forall|i: int| 0 <= i < k - 1 implies #[trigger] rest[i] != 10 by {
            assert(rest[i] == text[i + 1]);
        }
        lemma_line_end(rest, k - 1);
    }
}

/// The texts of a list of lines.
pub open spec fn texts_of(lines: Seq<Vec<u8>>) -> Seq<Seq<u8>> {
    Seq::new(lines.len(), |i: int| lines[i]@)
}

/// A copy of the bytes from `from` up to, but not including, `to`.
fn copy_of(text: &[u8], from: usize, to: usize) -> (copy: Vec<u8>)
    requires
        from <= to <= text@.len(),
    ensures
        copy@ == text@.subrange(from as int, to as int),
{
    vstd::slice::slice_to_vec(slice_subrange(text, from, to))
}

/// Cuts a text into its lines.
pub fn split_lines(text: &[u8]) -> (lines: Vec<Vec<u8>>)
    ensures
        texts_of(lines@) == lines_of(text@),
{
    let mut lines: Vec<Vec<u8>> = Vec::new();
    let mut start: usize = 0;
    let mut i: usize = 0;
    proof {
        assert(text@.skip(0) =~= text@);
        assert(texts_of(lines@) =~= Seq::<Seq<u8>>::empty());
    }
    while i < text.len()
        invariant
            0 <= start <= i <= text@.len(),
            forall|k: int| start <= k < i ==> #[trigger] text@[k] != 10,
            texts_of(lines@) + lines_of(text@.skip(start as int)) == lines_of(text@),
        decreases text@.len() - i,
    {
        if text[i] == 10 {
            let ghost rest = text@.skip(start as int);
            proof {
                assert forall|k: int| 0 <= k < i - start implies #[trigger] rest[k] != 10 by {
                    assert(rest[k] == text@[start + k]);
                }
                lemma_line_end(rest, i - start);
                assert(rest.take(i - start) =~= text@.subrange(start as int, i as int));
                assert(rest.skip(i - start + 1) =~= text@.skip(i as int + 1));
            }
            let end: usize = if i > start && text[i - 1] == 13 {
                i - 1
            } else {
                i
            };
            let line = copy_of(text, start, end);
            let ghost before = texts_of(lines@);
            proof {
                assert(line@ =~= without_return(text@.subrange(start as int, i as int)));
            }
            lines.push(line);
            proof {
                assert(texts_of(lines@) =~= before.push(line@));
                assert(before.push(line@) + lines_of(text@.skip(i as int + 1)) =~= before + (seq![line@]
                    + lines_of(text@.skip(i as int + 1))));
            }
            start = i + 1;
        }
        i = i + 1;
    }
    if start < text.len() {
        let ghost rest = text@.skip(start as int);
        proof {
            assert forall|k: int| 0 <= k < rest.len() implies #[trigger] rest[k] != 10 by {
                assert(rest[k] == text@[start + k]);
            }
            lemma_line_end(rest, rest.len() as int);
            assert(rest =~= text@.subrange(start as int, text@.len() as int));
        }
        let line = copy_of(text, start, text.len());
        let ghost before = texts_of(lines@);
        lines.push(line);
        proof {
            assert(texts_of(lines@) =~= before.push(line@));
            assert(before.push(line@) =~= before + seq![rest]);
        }
    } else {
        proof {
            assert(text@.skip(start as int) =~= Seq::<u8>::empty());
            assert(texts_of(lines@) + Seq::<Seq<u8>>::empty() =~= texts_of(lines@));
        }
    }
    lines
}

} // verus!
