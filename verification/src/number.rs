//! Decimal numbers: writing them, and reading them back.

use vstd::prelude::*;
use vstd::string::*;

use crate::text::chars_of;

verus! {

/// Why a text is not a number.
#[derive(Clone, Copy, Debug, PartialEq, Eq, Structural)]
pub enum NumberError {
    /// There is nothing to read.
    Empty,
    /// Something other than a digit was met.
    InvalidDigit,
    /// The digits read so far already exceed the largest number allowed.
    TooLarge,
}

impl NumberError {
    /// The error as text.
    pub fn message(&self) -> (r: &'static str)
        ensures
            r@ == self.message_text(),
    {
        match self {
            NumberError::Empty => "cannot parse integer from empty string",
            NumberError::InvalidDigit => "invalid digit found in string",
            NumberError::TooLarge => "number too large to fit in target type",
        }
    }

    /// What [`NumberError::message`] says.
    pub open spec fn message_text(self) -> Seq<char> {
        match self {
            NumberError::Empty => "cannot parse integer from empty string"@,
            NumberError::InvalidDigit => "invalid digit found in string"@,
            NumberError::TooLarge => "number too large to fit in target type"@,
        }
    }
}

/// The digit that stands for `d`.
pub open spec fn digit_char(d: nat) -> char {
    (48 + d) as char
}

/// `n` in decimal notation.
pub open spec fn decimal(n: nat) -> Seq<char>
    decreases n,
{
    if n < 10 {
        seq![digit_char(n)]
    } else {
        decimal(n / 10).push(digit_char(n % 10))
    }
}

/// `n` in decimal notation, with a minus sign if it is negative.
pub open spec fn decimal_int(n: int) -> Seq<char> {
    if n < 0 {
        "-"@ + decimal((-n) as nat)
    } else {
        decimal(n as nat)
    }
}

/// Whether `c` is an ASCII digit.
pub open spec fn is_digit(c: char) -> bool {
    '0' <= c <= '9'
}

/// Whether `s` holds digits only.
pub open spec fn all_digits(s: Seq<char>) -> bool {
    forall|i: int| 0 <= i < s.len() ==> is_digit(#[trigger] s[i])
}

/// The number that the digits `s` stand for.
pub open spec fn digits_value(s: Seq<char>) -> nat
    decreases s.len(),
{
    if s.len() == 0 {
        0
    } else {
        digits_value(s.drop_last()) * 10 + ((s.last() as int - 48) as nat)
    }
}

/// `s` without the plus sign that may stand before the digits.
pub open spec fn unsigned_part(s: Seq<char>) -> Seq<char> {
    if s.len() > 1 && s[0] == '+' {
        s.drop_first()
    } else {
        s
    }
}

/// Whether reading the digits of `d` from the left passes `max` before
/// anything else goes wrong.
pub open spec fn passes(d: Seq<char>, max: nat) -> bool {
    exists|k: int|
        0 <= k <= d.len() && all_digits(#[trigger] d.take(k)) && digits_value(d.take(k)) > max
}

/// The number that `s` stands for, if it is at most `max`.
pub open spec fn parsed(s: Seq<char>, max: nat) -> Result<nat, NumberError> {
    let d = unsigned_part(s);
    if s.len() == 0 {
        Err(NumberError::Empty)
    } else if all_digits(d) && digits_value(d) <= max {
        Ok(digits_value(d))
    } else if passes(d, max) {
        Err(NumberError::TooLarge)
    } else {
        Err(NumberError::InvalidDigit)
    }
}

/// `n` in decimal notation.
pub fn to_decimal(n: u128) -> (r: String)
    ensures
        r@ == decimal(n as nat),
    decreases n,
{
    let mut out = if n < 10 {
        String::new()
    } else {
        to_decimal(n / 10)
    };
    let d: u8 = (n % 10) as u8;
    let ghost before = out@;
    out.push((48 + d) as char);
    assert(n < 10 ==> out@ =~= seq![digit_char(n as nat)]);
    out
}

/// `n` in decimal notation.
pub fn to_decimal_int(n: i64) -> (r: String)
    ensures
        r@ == decimal_int(n as int),
{
    if n < 0 {
        let mut out = "-".to_owned();
        let magnitude: i128 = -(n as i128);
        out.append(to_decimal(magnitude as u128).as_str());
        out
    } else {
        to_decimal(n as u128)
    }
}

/// Reads the decimal number `s`, which may have a plus sign before it and
/// must not exceed `max`.
pub fn parse_number(s: &str, max: u64) -> (r: Result<u64, NumberError>)
    ensures
        match parsed(s@, max as nat) {
            Ok(n) => r == Ok::<u64, NumberError>(n as u64) && n <= max,
            Err(e) => r == Err::<u64, NumberError>(e),
        },
{
    let chars = chars_of(s);
    if chars.len() == 0 {
        return Err(NumberError::Empty);
    }
    let start: usize = if chars.len() > 1 && chars[0] == '+' {
        1
    } else {
        0
    };
    let ghost d = unsigned_part(s@);
    assert(d =~= s@.skip(start as int));
    let mut value: u64 = 0;
    let mut i: usize = start;
    while i < chars.len()
        invariant
            chars@ == s@,
            s@.len() > 0,
            d == unsigned_part(s@),
            d == s@.skip(start as int),
            start <= i <= s@.len(),
            all_digits(d.take(i - start)),
            value == digits_value(d.take(i - start)),
            value <= max,
        decreases chars.len() - i,
    {
        let c = chars[i];
        let ghost k = i - start;
        assert(d[k] == c);
        assert(d.take(k + 1).drop_last() =~= d.take(k));
        if !('0' <= c && c <= '9') {
            proof {
                assert(!all_digits(d)) by {
                    assert(!is_digit(d[k]));
                }
                assert forall|j: int| 0 <= j <= d.len() && all_digits(#[trigger] d.take(j)) implies
                    digits_value(d.take(j)) <= max by {
                    if j > k {
                        assert(!is_digit(d.take(j)[k]));
                    } else {
                        lemma_value_monotone(d, j, k);
                    }
                }
            }
            return Err(NumberError::InvalidDigit);
        }
        let digit: u64 = (c as u8 - 48) as u64;
        let next: u128 = (value as u128) * 10 + (digit as u128);
        assert(all_digits(d.take(k + 1))) by {
            assert forall|j: int| 0 <= j < k + 1 implies is_digit(#[trigger] d.take(k + 1)[j]) by {
                if j < k {
                    assert(is_digit(d.take(k)[j]));
                }
            }
        }
        assert(next == digits_value(d.take(k + 1)));
        if next > max as u128 {
            proof {
                assert(passes(d, max as nat));
                if all_digits(d) {
                    assert(d.take(d.len() as int) =~= d);
                    lemma_value_monotone(d, k + 1, d.len() as int);
                }
            }
            return Err(NumberError::TooLarge);
        }
        value = next as u64;
        i = i + 1;
    }
    assert(d.take(d.len() as int) =~= d);
    Ok(value)
}

/// Further digits never make a number smaller.
proof fn lemma_value_monotone(d: Seq<char>, j: int, k: int)
    requires
        0 <= j <= k <= d.len(),
        all_digits(d.take(k)),
    ensures
        digits_value(d.take(j)) <= digits_value(d.take(k)),
    decreases k - j,
{
    if j < k {
        assert(d.take(k).drop_last() =~= d.take(k - 1));
        assert(is_digit(d.take(k)[k - 1]));
        assert forall|i: int| 0 <= i < k - 1 implies is_digit(#[trigger] d.take(k - 1)[i]) by {
            assert(is_digit(d.take(k)[i]));
        }
        lemma_value_monotone(d, j, k - 1);
    }
}

/// The decimal notation of a number holds digits only, at least one, and
/// stands for that number.
pub proof fn decimal_reads_back(n: nat)
    ensures
        decimal(n).len() > 0,
        all_digits(decimal(n)),
        digits_value(decimal(n)) == n,
    decreases n,
{
    if n < 10 {
        assert(decimal(n).drop_last() =~= seq![]);
        assert(digits_value(seq![]) == 0);
        assert(digits_value(decimal(n)) == digits_value(decimal(n).drop_last()) * 10 + n);
    } else {
        decimal_reads_back(n / 10);
        assert(decimal(n).drop_last() =~= decimal(n / 10));
        assert forall|i: int| 0 <= i < decimal(n).len() implies is_digit(#[trigger] decimal(n)[i]) by {
            if i < decimal(n / 10).len() {
                assert(is_digit(decimal(n / 10)[i]));
            }
        }
    }
}

/// Reading the decimal notation of a number gives the number back, wherever
/// it is allowed to be that large.
pub proof fn parse_undoes_decimal(n: nat, max: nat)
    requires
        n <= max,
    ensures
        parsed(decimal(n), max) == Ok::<nat, NumberError>(n),
{
    decimal_reads_back(n);
    assert(is_digit(decimal(n)[0]));
}

/// Different numbers have different notations.
pub proof fn decimal_is_injective(m: nat, n: nat)
    requires
        decimal(m) == decimal(n),
    ensures
        m == n,
{
    decimal_reads_back(m);
    decimal_reads_back(n);
}

} // verus!
