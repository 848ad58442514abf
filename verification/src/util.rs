//! Decimal widths and zero-padded decimal text.

use vstd::prelude::*;

verus! {

/// The decimal digit `d` as a character.
pub open spec fn digit_char(d: nat) -> char {
    (48 + d) as char
}

/// The decimal notation of `n`, without leading zeros.
pub open spec fn decimal_text(n: nat) -> Seq<char>
    decreases n,
{
    if n < 10 {
        seq![digit_char(n)]
    } else {
        decimal_text(n / 10).push(digit_char(n % 10))
    }
}

/// `count` times the character `0`.
pub open spec fn zeros(count: nat) -> Seq<char> {
    Seq::new(count, |k: int| '0')
}

/// The decimal notation of `n`, with zeros in front of it where it has fewer
/// than `width` digits.
pub open spec fn zero_padded(n: nat, width: nat) -> Seq<char> {
    let digits = decimal_text(n);
    if digits.len() >= width {
        digits
    } else {
        zeros((width - digits.len()) as nat) + digits
    }
}

/// Ten to the power `e`.
pub open spec fn pow10(e: nat) -> nat
    decreases e,
{
    if e == 0 {
        1
    } else {
        10 * pow10((e - 1) as nat)
    }
}

/// The number of decimal digits in the usual notation of `n`; zero has one digit.
pub open spec fn decimal_digits(n: nat) -> nat
    decreases n,
{
    if n < 10 {
        1
    } else {
        1 + decimal_digits(n / 10)
    }
}

/// The width of a counter whose largest value is `max`: the digits of `max`,
/// and no width at all when the only value is zero.
pub open spec fn counter_width(max: nat) -> nat {
    if max == 0 {
        0
    } else {
        decimal_digits(max)
    }
}

/// The character at position `at` of `text`.
pub open spec fn char_at(text: Seq<char>, at: int) -> char {
    text[at]
}

/// The number that a text of decimal digits stands for; zeros in front of
/// it do not count.
pub open spec fn decimal_value(text: Seq<char>) -> int
    decreases text.len(),
{
    if text.len() == 0 {
        0
    } else {
        decimal_value(text.drop_last()) * 10 + (char_at(text, text.len() - 1) as int - 48)
    }
}

/// The width needed to print every counter value up to `value_`.
pub fn get_usize_len(value_: usize) -> (len: usize)
    ensures
        len == counter_width(value_ as nat),
{
    let mut len: usize = 1;
    let mut value: usize = value_;
    if value == 0 {
        return 0;
    }
    proof {
        lemma_digits_at_most_value(value_ as nat);
    }
    while value > 9
        invariant
            value > 0,
            len + decimal_digits(value as nat) == 1 + decimal_digits(value_ as nat),
            decimal_digits(value_ as nat) <= usize::MAX,
        decreases value,
    {
        proof {
            lemma_digits_at_most_value((value / 10) as nat);
        }
        len += 1;
        value /= 10;
    }
    len
}

/// The characters of `text`, in order.
pub fn chars_of(text: &str) -> (chars: Vec<char>)
    ensures
        chars@ == text@,
{
    let mut chars: Vec<char> = Vec::new();
    for c in it: text.chars()
        invariant
            chars@ == it.seq().take(it.index() as int),
            it.seq() == text@,
    {
        chars.push(c);
    }
    chars
}

/// Appends the decimal notation of `n` to `out`.
pub fn push_decimal(out: &mut String, n: usize)
    ensures
        final(out)@ == old(out)@ + decimal_text(n as nat),
    decreases n,
{
    if n >= 10 {
        push_decimal(out, n / 10);
    }
    let digit: u8 = (n % 10) as u8;
    proof {
        if n >= 10 {
            assert(old(out)@ + decimal_text((n / 10) as nat).push(digit_char((n % 10) as nat))
                =~= (old(out)@ + decimal_text((n / 10) as nat)).push(digit_char((n % 10) as nat)));
        } else {
            assert(old(out)@ + seq![digit_char(n as nat)] =~= old(out)@.push(
                digit_char(n as nat),
            ));
        }
    }
    out.push((48u8 + digit) as char);
}

/// Appends `n` in decimal notation to `out`, with zeros in front of it where
/// it has fewer than `width` digits.
pub fn push_zero_padded(out: &mut String, n: usize, width: usize)
    ensures
        final(out)@ == old(out)@ + zero_padded(n as nat, width as nat),
{
    let digits: usize = if n == 0 {
        1
    } else {
        get_usize_len(n)
    };
    proof {
        lemma_decimal_text_len(n as nat);
    }
    let mut padding: usize = 0;
    if width > digits {
        let missing: usize = width - digits;
        while padding < missing
            invariant
                padding <= missing,
                out@ == old(out)@ + zeros(padding as nat),
            decreases missing - padding,
        {
            proof {
                assert((old(out)@ + zeros(padding as nat)).push('0') =~= old(out)@ + zeros(
                    (padding + 1) as nat,
                ));
            }
            out.push('0');
            padding += 1;
        }
    } else {
        proof {
            assert(old(out)@ + zeros(0) =~= old(out)@);
        }
    }
    let ghost padded = out@;
    push_decimal(out, n);
    proof {
        if width > digits {
            assert(padded + decimal_text(n as nat) =~= old(out)@ + (zeros((width - digits) as nat)
                + decimal_text(n as nat)));
        }
    }
}

/// A number has no more digits than its value, zero apart.
pub proof fn lemma_digits_at_most_value(n: nat)
    requires
        n >= 1,
    ensures
        1 <= decimal_digits(n) <= n,
    decreases n,
{
    if n >= 10 {
        lemma_digits_at_most_value(n / 10);
    }
}

/// The notation of a number has as many characters as the number has digits.
pub proof fn lemma_decimal_text_len(n: nat)
    ensures
        decimal_text(n).len() == decimal_digits(n),
    decreases n,
{
    if n >= 10 {
        lemma_decimal_text_len(n / 10);
    }
}

/// A number with `d` digits is at least ten to the `d - 1` and below ten to
/// the `d`.
pub proof fn lemma_digits_bounds(n: nat)
    requires
        n >= 1,
    ensures
        pow10((decimal_digits(n) - 1) as nat) <= n < pow10(decimal_digits(n)),
    decreases n,
{
    if n >= 10 {
        lemma_digits_bounds(n / 10);
        let d = decimal_digits(n / 10);
        assert(pow10(d) == 10 * pow10((d - 1) as nat));
        assert(pow10(d + 1) == 10 * pow10(d));
    } else {
        assert(pow10(1) == 10 * pow10(0));
    }
}

/// Every power of ten is at least one.
pub proof fn lemma_pow10_positive(e: nat)
    ensures
        pow10(e) >= 1,
    decreases e,
{
    if e > 0 {
        lemma_pow10_positive((e - 1) as nat);
    }
}

/// For a group of `size` names the width of the counters is the ceiling of
/// the decimal logarithm of `max(size - 1, 1)`, that is the least `w` with
/// `max(size - 1, 1) <= 10^w`, unless `size - 1` is a power of ten.
pub proof fn lemma_counter_width_is_log_ceiling(size: nat)
    requires
        size >= 1,
        forall|e: nat| size - 1 != #[trigger] pow10(e),
    ensures
        ({
            let largest = if size - 1 > 1 {
                size - 1
            } else {
                1
            };
            let width = counter_width((size - 1) as nat);
            &&& largest <= pow10(width)
            &&& width > 0 ==> pow10((width - 1) as nat) < largest
        }),
{
    let max = (size - 1) as nat;
    if max >= 1 {
        lemma_digits_bounds(max);
        assert(max != pow10((decimal_digits(max) - 1) as nat));
    }
}

/// Where the largest counter value is ten to the `e`, the width is `e + 1`:
/// one more than the ceiling of its decimal logarithm.
pub proof fn lemma_counter_width_of_power_of_ten(e: nat)
    ensures
        counter_width(pow10(e)) == e + 1,
    decreases e,
{
    if e > 0 {
        lemma_counter_width_of_power_of_ten((e - 1) as nat);
        lemma_pow10_positive((e - 1) as nat);
        assert(pow10(e) / 10 == pow10((e - 1) as nat));
    }
}

/// A larger number has no fewer digits.
pub proof fn lemma_digits_grow(smaller: nat, larger: nat)
    requires
        smaller <= larger,
    ensures
        decimal_digits(smaller) <= decimal_digits(larger),
    decreases larger,
{
    if smaller >= 10 {
        lemma_digits_grow(smaller / 10, larger / 10);
    }
}

/// The notation of a number stands for that number.
pub proof fn lemma_decimal_text_value(n: nat)
    ensures
        decimal_value(decimal_text(n)) == n,
    decreases n,
{
    let text = decimal_text(n);
    assert(digit_char(n % 10) as int == 48 + n % 10);
    assert(char_at(text, text.len() - 1) == digit_char(n % 10));
    if n >= 10 {
        lemma_decimal_text_value(n / 10);
        assert(text.drop_last() =~= decimal_text(n / 10));
    } else {
        assert(text.drop_last() =~= Seq::<char>::empty());
        assert(decimal_value(text.drop_last()) == 0);
    }
}

/// Zeros in front of a text do not change the number that it stands for.
pub proof fn lemma_leading_zeros_value(count: nat, text: Seq<char>)
    ensures
        decimal_value(zeros(count) + text) == decimal_value(text),
    decreases text.len(), count,
{
    if text.len() > 0 {
        lemma_leading_zeros_value(count, text.drop_last());
        assert((zeros(count) + text).drop_last() =~= zeros(count) + text.drop_last());
    } else {
        assert(zeros(count) + text =~= zeros(count));
        if count > 0 {
            lemma_leading_zeros_value((count - 1) as nat, text);
            assert(zeros(count).drop_last() =~= zeros((count - 1) as nat) + text);
        }
    }
}

/// A zero-padded notation stands for its number, and has the asked width
/// unless the number needs more digits.
pub proof fn lemma_zero_padded(n: nat, width: nat)
    ensures
        decimal_value(zero_padded(n, width)) == n,
        zero_padded(n, width).len() == if decimal_digits(n) >= width {
            decimal_digits(n)
        } else {
            width
        },
{
    lemma_decimal_text_len(n);
    lemma_decimal_text_value(n);
    if decimal_digits(n) < width {
        lemma_leading_zeros_value((width - decimal_digits(n)) as nat, decimal_text(n));
    }
}

} // verus!
