//! Decimal numerals and zero padding, as file numbers are written.

use vstd::prelude::*;

verus! {

/// The character that writes the decimal digit `d`.
pub open spec fn digit_char(d: nat) -> char
    recommends
        d < 10,
{
    if d == 0 {
        '0'
    } else if d == 1 {
        '1'
    } else if d == 2 {
        '2'
    } else if d == 3 {
        '3'
    } else if d == 4 {
        '4'
    } else if d == 5 {
        '5'
    } else if d == 6 {
        '6'
    } else if d == 7 {
        '7'
    } else if d == 8 {
        '8'
    } else {
        '9'
    }
}

/// The decimal numeral of `n`, most significant digit first, without leading
/// zeros (zero itself is written `0`).
pub open spec fn decimal_digits(n: nat) -> Seq<char>
    decreases n,
{
    if n < 10 {
        seq![digit_char(n)]
    } else {
        decimal_digits(n / 10).push(digit_char(n % 10))
    }
}

/// A run of `count` zeros.
pub open spec fn zeros(count: nat) -> Seq<char> {
    Seq::new(count, |i: int| '0')
}

/// The numeral of `n` padded on the left with zeros to at least `width`
/// characters. A numeral that is already `width` characters or longer is left
/// as it is.
pub open spec fn zero_padded(n: nat, width: nat) -> Seq<char> {
    let digits = decimal_digits(n);
    if digits.len() >= width {
        digits
    } else {
        zeros((width - digits.len()) as nat) + digits
    }
}

/// The text of the decimal digit `d`.
fn digit_str(d: u8) -> (text: &'static str)
    requires
        d < 10,
    ensures
        text@ == seq![digit_char(d as nat)],
{
    proof {
        reveal_strlit("0");
        reveal_strlit("1");
        reveal_strlit("2");
        reveal_strlit("3");
        reveal_strlit("4");
        reveal_strlit("5");
        reveal_strlit("6");
        reveal_strlit("7");
        reveal_strlit("8");
        reveal_strlit("9");
    }
    match d {
        0 => "0",
        1 => "1",
        2 => "2",
        3 => "3",
        4 => "4",
        5 => "5",
        6 => "6",
        7 => "7",
        8 => "8",
        _ => "9",
    }
}

/// Appends the decimal numeral of `n` to `text`.
pub fn push_decimal(text: &mut String, n: u128)
    ensures
        final(text)@ == old(text)@ + decimal_digits(n as nat),
    decreases n,
{
    if n >= 10 {
        push_decimal(text, n / 10);
    }
    let digit: u8 = (n % 10) as u8;
    text.append(digit_str(digit));
}

/// The decimal numeral of `n`.
pub fn decimal(n: u128) -> (text: String)
    ensures
        text@ == decimal_digits(n as nat),
{
    let mut text = String::new();
    push_decimal(&mut text, n);
    text
}

/// The numeral of `number`, padded on the left with zeros to at least `width`
/// characters and never shortened.
pub fn zero_pad(number: u128, width: usize) -> (text: String)
    ensures
        text@ == zero_padded(number as nat, width as nat),
{
    let digits = decimal(number);
    let len = digits.as_str().unicode_len();
    let mut text = String::new();
    let mut filled: usize = len;
    while filled < width
        invariant
            len == digits@.len(),
            len <= filled,
            filled <= width || filled == len,
            text@ == zeros((filled - len) as nat),
        decreases width - filled,
    {
        proof {
            reveal_strlit("0");
        }
        text.append("0");
        filled = filled + 1;
    }
    text.append(digits.as_str());
    text
}

/// The digit that the character `c` writes; zero for any other character.
pub open spec fn digit_value(c: char) -> nat {
    if c == '1' {
        1
    } else if c == '2' {
        2
    } else if c == '3' {
        3
    } else if c == '4' {
        4
    } else if c == '5' {
        5
    } else if c == '6' {
        6
    } else if c == '7' {
        7
    } else if c == '8' {
        8
    } else if c == '9' {
        9
    } else {
        0
    }
}

/// The number that a decimal numeral writes, leading zeros allowed.
pub open spec fn decimal_value(text: Seq<char>) -> nat
    decreases text.len(),
{
    if text.len() == 0 {
        0
    } else {
        decimal_value(text.drop_last()) * 10 + digit_value(text.last())
    }
}

/// Ten to the power of `exponent`.
pub open spec fn power_of_ten(exponent: nat) -> nat
    decreases exponent,
{
    if exponent == 0 {
        1
    } else {
        10 * power_of_ten((exponent - 1) as nat)
    }
}

/// Zero padding sets a minimum width. A number with fewer digits than the
/// width is written with leading zeros to exactly the width; a number with
/// as many digits or more is written with all its digits and nothing else.
pub proof fn lemma_zero_padding_is_a_minimum_width(n: nat, width: nat)
    ensures
        ({
            let digits = decimal_digits(n);
            let padded = zero_padded(n, width);
            if digits.len() < width {
                &&& padded.len() == width
                &&& padded.subrange(0, width - digits.len()) == zeros(
                    (width - digits.len()) as nat,
                )
                &&& padded.subrange(width - digits.len(), width as int) == digits
            } else {
                padded == digits
            }
        }),
{
}

/// A numeral has at least one digit, and reads back as the number it was
/// written for.
pub proof fn lemma_decimal_digits_read_back(n: nat)
    ensures
        decimal_digits(n).len() >= 1,
        decimal_value(decimal_digits(n)) == n,
    decreases n,
{
    let digits = decimal_digits(n);
    if n >= 10 {
        lemma_decimal_digits_read_back(n / 10);
        assert(digits.drop_last() =~= decimal_digits(n / 10));
    } else {
        assert(digits.drop_last() =~= Seq::<char>::empty());
        assert(decimal_value(Seq::<char>::empty()) == 0);
    }
}

/// A numeral is made of decimal digits, and begins with a zero only where it
/// writes the number zero.
pub proof fn lemma_decimal_digits_are_canonical(n: nat)
    ensures
        forall|i: int|
            0 <= i < decimal_digits(n).len() ==> '0' <= #[trigger] decimal_digits(n)[i] <= '9',
        decimal_digits(n)[0] == '0' <==> n == 0,
    decreases n,
{
    if n >= 10 {
        lemma_decimal_digits_are_canonical(n / 10);
        lemma_decimal_digits_read_back(n / 10);
    }
}

/// A number has at most `count` digits exactly when it lies below the
/// `count`-th power of ten.
pub proof fn lemma_digit_count(n: nat, count: nat)
    requires
        count >= 1,
    ensures
        decimal_digits(n).len() <= count <==> n < power_of_ten(count),
    decreases count,
{
    let rest = (count - 1) as nat;
    lemma_decimal_digits_read_back(n / 10);
    if n >= 10 {
        assert(decimal_digits(n).len() == decimal_digits(n / 10).len() + 1);
    }
    if count == 1 {
        assert(power_of_ten(rest) == 1);
    } else {
        lemma_digit_count(n / 10, rest);
        lemma_digit_count(0, rest);
        assert(power_of_ten(count) == 10 * power_of_ten(rest));
    }
}

/// Padding does not change the number written.
pub proof fn lemma_zero_padded_reads_back(n: nat, width: nat)
    ensures
        decimal_value(zero_padded(n, width)) == n,
{
    lemma_decimal_digits_read_back(n);
    let digits = decimal_digits(n);
    if digits.len() < width {
        lemma_leading_zeros_read_as_nothing((width - digits.len()) as nat, digits);
    }
}

/// Zeros before a numeral do not change the number it writes.
proof fn lemma_leading_zeros_read_as_nothing(count: nat, digits: Seq<char>)
    ensures
        decimal_value(zeros(count) + digits) == decimal_value(digits),
    decreases digits.len(), count,
{
    if digits.len() > 0 {
        lemma_leading_zeros_read_as_nothing(count, digits.drop_last());
        assert((zeros(count) + digits).drop_last() =~= zeros(count) + digits.drop_last());
    } else if count > 0 {
        lemma_leading_zeros_read_as_nothing((count - 1) as nat, digits);
        assert((zeros(count) + digits).drop_last() =~= zeros((count - 1) as nat) + digits);
    } else {
        assert(zeros(count) + digits =~= Seq::<char>::empty());
    }
}

} // verus!
