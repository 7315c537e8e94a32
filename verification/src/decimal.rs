//! Decimal rendering of integers as ASCII bytes, and the line-number prefix
//! that is built from it.

use vstd::prelude::*;

verus! {

/// Width of the field in which a line number is right-aligned.
pub const FIELD_WIDTH: usize = 6;

/// ASCII space, the padding byte.
pub const SPACE: u8 = 32;

/// ASCII horizontal tab, which ends a line-number prefix.
pub const TAB: u8 = 9;

/// ASCII minus sign.
pub const MINUS: u8 = 45;

/// ASCII digit zero.
pub const ZERO: u8 = 48;

/// The decimal digits of `n`, most significant first, without leading zeros.
pub open spec fn digits(n: nat) -> Seq<u8>
    decreases n,
{
    if n < 10 {
        seq![(48 + n) as u8]
    } else {
        digits(n / 10).push((48 + n % 10) as u8)
    }
}

/// The decimal rendering of a signed integer: a minus sign for a negative
/// one, then the digits of its magnitude.
pub open spec fn decimal(n: int) -> Seq<u8> {
    if n < 0 {
        seq![45u8] + digits((-n) as nat)
    } else {
        digits(n as nat)
    }
}

/// The spaces that right-align a text of `len` bytes in the number field.
pub open spec fn padding(len: nat) -> Seq<u8> {
    Seq::new(
        if len < 6 {
            (6 - len) as nat
        } else {
            0
        },
        |i: int| 32u8,
    )
}

/// The prefix of a numbered line: the number right-aligned in a field of six
/// bytes (longer numbers take the room they need), then a tab.
pub open spec fn line_prefix(n: int) -> Seq<u8> {
    padding(decimal(n).len()) + decimal(n) + seq![9u8]
}

/// The number that a text of decimal digits denotes.
pub open spec fn number_of(text: Seq<u8>) -> nat
    decreases text.len(),
{
    if text.len() == 0 {
        0
    } else {
        (number_of(text.drop_last()) * 10 + (text.last() - 48)) as nat
    }
}

/// A rendering has at least one digit, every byte of it is a digit, and it
/// begins with a zero only when it renders zero.
pub proof fn law_digits_are_digits(n: nat)
    ensures
        digits(n).len() >= 1,
        forall|i: int| 0 <= i < digits(n).len() ==> 48 <= #[trigger] digits(n)[i] <= 57,
        n > 0 ==> digits(n)[0] != 48u8,
        n == 0 ==> digits(n) == seq![48u8],
    decreases n,
{
    if n >= 10 {
        law_digits_are_digits(n / 10);
    }
}

/// The digits of a number denote that number: no two numbers are rendered
/// alike.
pub proof fn law_digits_denote_their_number(n: nat)
    ensures
        number_of(digits(n)) == n,
    decreases n,
{
    if n >= 10 {
        law_digits_denote_their_number(n / 10);
        assert(digits(n).drop_last() =~= digits(n / 10));
    } else {
        assert(digits(n).drop_last() =~= Seq::<u8>::empty());
        assert(number_of(digits(n).drop_last()) == 0);
    }
}

/// A prefix holds the number right-aligned: it is the number's text and a
/// tab, with spaces before them that fill it up to seven bytes.
pub proof fn law_line_prefix_is_right_aligned(n: int)
    ensures
        line_prefix(n).len() == if decimal(n).len() < 6 {
            7
        } else {
            decimal(n).len() + 1
        },
        line_prefix(n).last() == 9u8,
        line_prefix(n).subrange(
            line_prefix(n).len() - 1 - decimal(n).len(),
            line_prefix(n).len() - 1,
        ) == decimal(n),
        forall|i: int|
            0 <= i < line_prefix(n).len() - 1 - decimal(n).len() ==> #[trigger] line_prefix(n)[i]
                == 32u8,
{
    let pad = padding(decimal(n).len());
    let text = decimal(n);
    let whole = line_prefix(n);
    assert(whole.len() == pad.len() + text.len() + 1);
    assert(whole.subrange(whole.len() - 1 - text.len(), whole.len() - 1) =~= text);
}

/// Appends the decimal digits of `n` to `out`.
pub fn push_digits(n: u128, out: &mut Vec<u8>)
    ensures
        final(out)@ == old(out)@ + digits(n as nat),
    decreases n,
{
    if n >= 10 {
        push_digits(n / 10, out);
    }
    let d: u8 = (n % 10) as u8;
    out.push(ZERO + d);
    proof {
        if n >= 10 {
            assert(final(out)@ =~= old(out)@ + digits(n as nat / 10).push((48 + n as nat % 10) as u8));
        } else {
            assert(final(out)@ =~= old(out)@ + digits(n as nat));
        }
    }
}

/// The decimal rendering of `n`.
pub fn decimal_bytes(n: i32) -> (out: Vec<u8>)
    ensures
        out@ == decimal(n as int),
{
    let mut out: Vec<u8> = Vec::new();
    let wide: i64 = n as i64;
    if wide < 0 {
        out.push(MINUS);
        push_digits((-wide) as u128, &mut out);
    } else {
        push_digits(wide as u128, &mut out);
    }
    proof {
        assert(out@ =~= decimal(n as int));
    }
    out
}

/// The prefix that is written before line number `n`.
pub fn format_line_number(n: i32) -> (out: Vec<u8>)
    ensures
        out@ == line_prefix(n as int),
{
    let mut text = decimal_bytes(n);
    let mut out: Vec<u8> = Vec::new();
    let len: usize = text.len();
    let pad: usize = if len < FIELD_WIDTH {
        FIELD_WIDTH - len
    } else {
        0
    };
    while out.len() < pad
        invariant
            out@.len() <= pad,
            forall|i: int| 0 <= i < out@.len() ==> out@[i] == 32u8,
        decreases pad - out@.len(),
    {
        out.push(SPACE);
    }
    proof {
        assert(out@ =~= padding(text@.len()));
    }
    out.append(&mut text);
    out.push(TAB);
    out
}

} // verus!
