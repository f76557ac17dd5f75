//! Numbers as text.
use vstd::prelude::*;
use vstd::utf8::encode_utf8;

verus! {

/// Appends a character to a string.
///
/// `String::push` is documented to append the given character to the end of the string.
pub assume_specification[ String::push ](s: &mut String, ch: char)
    ensures
        final(s)@ == old(s)@.push(ch),
;

/// Appends a string to a string.
///
/// `String::push_str` is documented to append the given string slice onto the end of the string.
pub assume_specification[ String::push_str ](s: &mut String, string: &str)
    ensures
        final(s)@ == old(s)@ + string@,
;

/// The character of a decimal digit.
pub open spec fn digit_char(digit: nat) -> char {
    ('0' as int + digit) as char
}

/// A number in decimal notation.
pub open spec fn decimal(n: nat) -> Seq<char>
    decreases n,
{
    if n < 10 {
        seq![digit_char(n)]
    } else {
        decimal(n / 10).push(digit_char(n % 10))
    }
}

/// A signed number in decimal notation.
pub open spec fn signed_decimal(n: int) -> Seq<char> {
    if n < 0 {
        seq!['-'] + decimal((-n) as nat)
    } else {
        decimal(n as nat)
    }
}

fn digit(n: u64) -> (r: char)
    requires
        n < 10,
    ensures
        r == digit_char(n as nat),
{
    match n {
        0 => '0',
        1 => '1',
        2 => '2',
        3 => '3',
        4 => '4',
        5 => '5',
        6 => '6',
        7 => '7',
        8 => '8',
        _ => '9',
    }
}

/// Appends a number in decimal notation to a string.
pub fn push_decimal(s: &mut String, n: u64)
    ensures
        final(s)@ == old(s)@ + decimal(n as nat),
    decreases n,
{
    if n >= 10 {
        push_decimal(s, n / 10);
    }
    s.push(digit(n % 10));
}

/// Appends a signed number in decimal notation to a string.
pub fn push_signed_decimal(s: &mut String, n: i32)
    ensures
        final(s)@ == old(s)@ + signed_decimal(n as int),
{
    if n < 0 {
        s.push('-');
        push_decimal(s, (-(n as i64)) as u64);
    } else {
        push_decimal(s, n as u64);
    }
}

/// The number that `bytes` hold in decimal notation, with digits only.
pub open spec fn digits_value(bytes: Seq<u8>) -> nat
    decreases bytes.len(),
{
    if bytes.len() == 0 {
        0
    } else {
        10 * digits_value(bytes.drop_last()) + (bytes.last() - 0x30) as nat
    }
}

/// Whether `bytes` are digits, and at least one.
pub open spec fn is_digits(bytes: Seq<u8>) -> bool {
    &&& bytes.len() > 0
    &&& forall|i: int| 0 <= i < bytes.len() ==> 0x30 <= #[trigger] bytes[i] <= 0x39
}

/// `bytes` without the plus sign that they may start with.
pub open spec fn without_plus(bytes: Seq<u8>) -> Seq<u8> {
    if bytes.len() > 0 && bytes[0] == 0x2b {
        bytes.drop_first()
    } else {
        bytes
    }
}

/// The number that `bytes` stand for: digits, possibly after a plus sign, and at most `max`.
pub open spec fn parsed(bytes: Seq<u8>, max: nat) -> Option<nat> {
    let digits = without_plus(bytes);
    if is_digits(digits) && digits_value(digits) <= max {
        Some(digits_value(digits))
    } else {
        None
    }
}

proof fn lemma_digits_value_take(bytes: Seq<u8>, i: int)
    requires
        0 <= i <= bytes.len(),
        forall|i: int| 0 <= i < bytes.len() ==> 0x30 <= #[trigger] bytes[i] <= 0x39,
    ensures
        digits_value(bytes.take(i)) <= digits_value(bytes),
    decreases bytes.len(),
{
    if i < bytes.len() {
        assert(bytes.drop_last().take(i) == bytes.take(i));
        lemma_digits_value_take(bytes.drop_last(), i);
    } else {
        assert(bytes.take(i) == bytes);
    }
}

/// Reads a number in decimal notation.
pub fn parse_usize(bytes: &[u8]) -> (r: Option<usize>)
    ensures
        match r {
            Some(n) => parsed(bytes@, usize::MAX as nat) == Some(n as nat),
            None => parsed(bytes@, usize::MAX as nat) is None,
        },
{
    let ghost digits = without_plus(bytes@);
    let start: usize = if bytes.len() > 0 && bytes[0] == 0x2b {
        1
    } else {
        0
    };
    if start == bytes.len() {
        return None;
    }
    let mut n: usize = 0;
    let mut i: usize = start;
    while i < bytes.len()
        invariant
            start <= i <= bytes.len(),
            start < bytes.len(),
            digits == bytes@.skip(start as int),
            digits == without_plus(bytes@),
            n == digits_value(digits.take(i - start)),
            forall|j: int| 0 <= j < i - start ==> 0x30 <= #[trigger] digits[j] <= 0x39,
        decreases bytes.len() - i,
    {
        let byte = bytes[i];
        assert(digits[i - start] == byte);
        if byte < 0x30 || byte > 0x39 {
            return None;
        }
        proof {
            assert(digits.take(i - start + 1).drop_last() == digits.take(i - start));
            assert(digits.take(i - start + 1).last() == byte);
        }
        let digit: usize = (byte - 0x30) as usize;
        if n > (usize::MAX - digit) / 10 {
            proof {
                if is_digits(digits) {
                    lemma_digits_value_take(digits, i - start + 1);
                }
            }
            return None;
        }
        n = 10 * n + digit;
        i += 1;
    }
    assert(digits.take(i - start) == digits);
    Some(n)
}

/// A number that was written in decimal notation is read back as that number.
pub proof fn law_decimal_readable(n: nat, max: nat)
    requires
        n <= max,
    ensures
        parsed(decimal(n).map_values(|c: char| c as u8), max) == Some(n),
{
    lemma_decimal_readable(n);
}

proof fn lemma_decimal_readable(n: nat)
    ensures
        ({
            let bytes = decimal(n).map_values(|c: char| c as u8);
            &&& is_digits(bytes)
            &&& digits_value(bytes) == n
        }),
    decreases n,
{
    let bytes = decimal(n).map_values(|c: char| c as u8);
    if n < 10 {
        assert(bytes.drop_last() == Seq::<u8>::empty());
        assert(bytes.last() == 0x30 + n);
        assert(digits_value(bytes.drop_last()) == 0);
    } else {
        lemma_decimal_readable(n / 10);
        let earlier = decimal(n / 10).map_values(|c: char| c as u8);
        assert(bytes.drop_last() == earlier);
        assert(bytes.last() == 0x30 + n % 10);
        assert forall|i: int| 0 <= i < bytes.len() implies 0x30 <= #[trigger] bytes[i] <= 0x39 by {
            if i < earlier.len() {
                assert(bytes[i] == earlier[i]);
            }
        }
    }
}

/// The smallest number with more than `len` digits.
pub open spec fn digit_range(len: nat) -> nat
    decreases len,
{
    if len == 0 {
        1
    } else {
        10 * digit_range((len - 1) as nat)
    }
}

/// How many digits a number has.
pub proof fn lemma_decimal_len(n: nat, len: nat)
    requires
        n < digit_range(len),
        len > 0,
    ensures
        decimal(n).len() <= len,
    decreases len,
{
    if n >= 10 {
        if len == 1 {
            assert(digit_range(1) == 10) by {
                reveal_with_fuel(digit_range, 2);
            }
        }
        lemma_decimal_len(n / 10, (len - 1) as nat);
    }
}

/// A number of 64 bits has at most 20 digits.
pub proof fn lemma_u64_decimal_len(n: u64)
    ensures
        decimal(n as nat).len() <= 20,
{
    reveal_with_fuel(digit_range, 21);
    lemma_decimal_len(n as nat, 20);
}

/// A character takes at most four bytes.
pub proof fn lemma_encode_utf8_len(chars: Seq<char>)
    ensures
        encode_utf8(chars).len() <= 4 * chars.len(),
    decreases chars.len(),
{
    if chars.len() > 0 {
        lemma_encode_utf8_len(chars.drop_first());
    }
}

/// How numbers are written: with decimal digits, the most significant first, and without zeros that
/// are not needed. Ten times a number and a digit is written as the number and then the digit.
pub proof fn law_decimal_digits(n: nat, digit: nat)
    requires
        digit < 10,
    ensures
        decimal(digit).len() == 1 && decimal(digit)[0] as int == '0' as int + digit,
        n > 0 ==> decimal(10 * n + digit).drop_last() == decimal(n),
        decimal(10 * n + digit).last() as int == '0' as int + digit,
        n > 0 ==> decimal(n)[0] != '0',
    decreases n,
{
    let m = 10 * n + digit;
    assert(m / 10 == n && m % 10 == digit);
    if n > 0 {
        assert(decimal(m).drop_last() == decimal(n));
        if n >= 10 {
            law_decimal_digits(n / 10, 0);
            lemma_decimal_nonempty(n / 10);
        }
    }
}

proof fn lemma_decimal_nonempty(n: nat)
    ensures
        decimal(n).len() > 0,
    decreases n,
{
    if n >= 10 {
        lemma_decimal_nonempty(n / 10);
    }
}

/// Negative numbers are written with a minus sign before the number without it.
pub proof fn law_signs(n: nat)
    ensures
        signed_decimal(n as int) == decimal(n),
        n > 0 ==> signed_decimal(-n) == seq!['-'] + decimal(n),
{
}

/// How numbers are read. One more digit at the end counts ten times the digits before it and
/// itself; a plus sign before the digits means nothing; and there has to be at least one digit,
/// nothing but digits, and no more than the limit.
pub proof fn law_decimal_read(bytes: Seq<u8>, last: u8, max: nat)
    ensures
        0x30 <= last <= 0x39 ==> parsed(seq![last], max) == if last - 0x30 <= max {
            Some((last - 0x30) as nat)
        } else {
            None
        },
        0x30 <= last <= 0x39 ==> (parsed(bytes, max) matches Some(n) ==> parsed(
            bytes.push(last),
            max,
        ) == if 10 * n + (last - 0x30) <= max {
            Some((10 * n + (last - 0x30)) as nat)
        } else {
            None
        }),
        bytes.len() > 0 && bytes[0] != 0x2b ==> parsed(seq![0x2b] + bytes, max) == parsed(
            bytes,
            max,
        ),
        parsed(Seq::empty(), max) is None,
        parsed(seq![0x2b], max) is None,
        last < 0x30 || last > 0x39 ==> parsed(bytes.push(last), max) is None,
        parsed(bytes, max) matches Some(n) ==> n <= max,
{
    reveal_with_fuel(digits_value, 2);
    assert(seq![last].drop_last() == Seq::<u8>::empty());
    let pushed = bytes.push(last);
    let digits = without_plus(bytes);
    if parsed(bytes, max) is Some && 0x30 <= last <= 0x39 {
        assert(without_plus(pushed) == digits.push(last));
        assert(digits.push(last).drop_last() == digits);
        assert forall|i: int| 0 <= i < digits.push(last).len() implies 0x30
            <= #[trigger] digits.push(last)[i] <= 0x39 by {
            if i < digits.len() {
                assert(digits.push(last)[i] == digits[i]);
            }
        }
    }
    assert((seq![0x2bu8] + bytes).drop_first() == bytes);
    assert(seq![0x2bu8].drop_first() == Seq::<u8>::empty());
    if last < 0x30 || last > 0x39 {
        let rest = without_plus(pushed);
        if rest.len() > 0 {
            assert(rest[rest.len() - 1] == last);
        }
    }
}

} // verus!
