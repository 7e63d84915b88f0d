//! Laws of the small operations on text.

use vstd::prelude::*;
use vstd::string::*;

use crate::number::{NumberError, all_digits, decimal, decimal_int, decimal_reads_back};
use crate::number::{digits_value, is_digit, parsed, passes, unsigned_part};
use crate::text::{blanks, bool_text, first_chars, is_space, lower_char, lowered, padded, replaced};
use crate::text::{trimmed, trimmed_end, trimmed_start};

verus! {

/// Whether a text is made of whitespace only.
pub open spec fn all_blank(s: Seq<char>) -> bool {
    forall|i: int| 0 <= i < s.len() ==> is_space(#[trigger] s[i])
}

/// Among the ASCII characters, whitespace is the blank, the tab, the line feed,
/// the vertical tab, the form feed and the carriage return.
pub proof fn ascii_whitespace(c: char)
    requires
        c <= '\u{7f}',
    ensures
        is_space(c) <==> c == ' ' || c == '\t' || c == '\n' || c == '\u{b}' || c == '\u{c}' || c
            == '\r',
{
}

proof fn lemma_start(s: Seq<char>)
    ensures
        trimmed_start(s).len() <= s.len(),
        trimmed_start(s) == s.skip(s.len() - trimmed_start(s).len()),
        all_blank(s.take(s.len() - trimmed_start(s).len())),
        trimmed_start(s).len() > 0 ==> !is_space(trimmed_start(s)[0]),
    decreases s.len(),
{
    if s.len() > 0 && is_space(s[0]) {
        let rest = s.drop_first();
        lemma_start(rest);
        let k = rest.len() - trimmed_start(rest).len();
        assert(rest.skip(k) =~= s.skip(k + 1));
        assert forall|i: int| 0 <= i < k + 1 implies is_space(#[trigger] s.take(k + 1)[i]) by {
            if i > 0 {
                assert(rest.take(k)[i - 1] == s[i]);
            }
        }
    } else {
        assert(s.skip(0) =~= s);
    }
}

proof fn lemma_end(s: Seq<char>)
    ensures
        trimmed_end(s).len() <= s.len(),
        trimmed_end(s) == s.take(trimmed_end(s).len() as int),
        all_blank(s.skip(trimmed_end(s).len() as int)),
        trimmed_end(s).len() > 0 ==> !is_space(trimmed_end(s).last()),
    decreases s.len(),
{
    if s.len() > 0 && is_space(s.last()) {
        let front = s.drop_last();
        lemma_end(front);
        let k = trimmed_end(front).len() as int;
        assert(front.take(k) =~= s.take(k));
        assert forall|i: int| 0 <= i < s.len() - k implies is_space(#[trigger] s.skip(k)[i]) by {
            if i < front.len() - k {
                assert(front.skip(k)[i] == s[i + k]);
            }
        }
    } else {
        assert(s.take(s.len() as int) =~= s);
    }
}

/// Trimming a text cuts off whitespace at its two ends and nothing else: what
/// is left neither begins nor ends with whitespace, and the text is that with
/// whitespace before and behind it.
pub proof fn trimming_cuts_off_whitespace(s: Seq<char>)
    ensures
        trimmed(s).len() > 0 ==> !is_space(trimmed(s)[0]) && !is_space(trimmed(s).last()),
        exists|before: Seq<char>, behind: Seq<char>|
            all_blank(before) && all_blank(behind) && #[trigger] (before + trimmed(s) + behind)
                == s,
{
    let rest = trimmed_start(s);
    lemma_start(s);
    lemma_end(rest);
    let k = s.len() - rest.len();
    let before = s.take(k);
    let behind = rest.skip(trimmed(s).len() as int);
    assert(before + trimmed(s) + behind =~= s);
    if trimmed(s).len() > 0 {
        assert(trimmed(s)[0] == rest[0]);
    }
}

/// Whitespace around a text does not matter to what is left of it by trimming,
/// and a text without whitespace at its ends is left whole.
pub proof fn trimming_ignores_whitespace_around(before: Seq<char>, s: Seq<char>, behind: Seq<char>)
    requires
        all_blank(before),
        all_blank(behind),
        s.len() > 0 ==> !is_space(s[0]) && !is_space(s.last()),
    ensures
        trimmed(before + s + behind) == s,
    decreases before.len() + behind.len(),
{
    let all = before + s + behind;
    if before.len() > 0 {
        assert(is_space(before[0]));
        let rest = before.drop_first();
        assert forall|i: int| 0 <= i < rest.len() implies is_space(#[trigger] rest[i]) by {
            assert(rest[i] == before[i + 1]);
        }
        assert(all.drop_first() =~= rest + s + behind);
        trimming_ignores_whitespace_around(rest, s, behind);
    } else if s.len() > 0 {
        assert(all =~= s + behind);
        lemma_trailing(s, behind);
    } else {
        assert(all =~= behind);
        lemma_only_blank(behind);
        assert(trimmed_end(Seq::<char>::empty()) =~= s);
    }
}

proof fn lemma_trailing(s: Seq<char>, behind: Seq<char>)
    requires
        s.len() > 0,
        !is_space(s.last()),
        all_blank(behind),
    ensures
        trimmed_end(s + behind) == s,
    decreases behind.len(),
{
    if behind.len() > 0 {
        let front = behind.drop_last();
        assert(is_space(behind[behind.len() - 1]));
        assert forall|i: int| 0 <= i < front.len() implies is_space(#[trigger] front[i]) by {
            assert(front[i] == behind[i]);
        }
        assert((s + behind).drop_last() =~= s + front);
        lemma_trailing(s, front);
    } else {
        assert(s + behind =~= s);
    }
}

proof fn lemma_only_blank(s: Seq<char>)
    requires
        all_blank(s),
    ensures
        trimmed_start(s) == Seq::<char>::empty(),
    decreases s.len(),
{
    if s.len() > 0 {
        let rest = s.drop_first();
        assert(is_space(s[0]));
        assert forall|i: int| 0 <= i < rest.len() implies is_space(#[trigger] rest[i]) by {
            assert(rest[i] == s[i + 1]);
        }
        lemma_only_blank(rest);
    } else {
        assert(s =~= seq![]);
    }
}

/// Putting a text into lower case changes nothing but its ASCII capitals, and
/// each of these into the letter 32 places further on, which is no capital.
pub proof fn only_capitals_are_lowered(s: Seq<char>)
    ensures
        lowered(s).len() == s.len(),
        forall|i: int|
            0 <= i < s.len() ==> #[trigger] lowered(s)[i] as int == if 'A' <= s[i] <= 'Z' {
                s[i] as int + 32
            } else {
                s[i] as int
            },
        forall|i: int| 0 <= i < s.len() ==> !('A' <= #[trigger] lowered(s)[i] <= 'Z'),
{
    assert forall|i: int| 0 <= i < s.len() implies #[trigger] lowered(s)[i] as int == (if 'A'
        <= s[i] <= 'Z' {
        s[i] as int + 32
    } else {
        s[i] as int
    }) && !('A' <= lowered(s)[i] <= 'Z') by {
        lemma_lower_char(s[i]);
    }
}

proof fn lemma_lower_char(c: char)
    ensures
        lower_char(c) as int == if 'A' <= c <= 'Z' {
            c as int + 32
        } else {
            c as int
        },
        !('A' <= lower_char(c) <= 'Z'),
{
}

/// Text is replaced part by part.
pub proof fn text_is_replaced_part_by_part(a: Seq<char>, b: Seq<char>, from: char, to: Seq<char>)
    ensures
        replaced(a + b, from, to) == replaced(a, from, to) + replaced(b, from, to),
    decreases b.len(),
{
    if b.len() == 0 {
        assert(a + b =~= a);
        assert(replaced(a, from, to) + replaced(b, from, to) =~= replaced(a, from, to));
    } else {
        assert((a + b).drop_last() =~= a + b.drop_last());
        text_is_replaced_part_by_part(a, b.drop_last(), from, to);
        assert(replaced(a + b, from, to) =~= replaced(a, from, to) + replaced(b, from, to));
    }
}

/// Text without the character that is replaced stays as it is.
pub proof fn other_text_is_not_replaced(s: Seq<char>, from: char, to: Seq<char>)
    requires
        !s.contains(from),
    ensures
        replaced(s, from, to) == s,
    decreases s.len(),
{
    if s.len() > 0 {
        let front = s.drop_last();
        assert forall|i: int| 0 <= i < front.len() implies front[i] != from by {
            assert(s.contains(s[i]));
        }
        assert(s.contains(s.last()));
        other_text_is_not_replaced(front, from, to);
        assert(front + seq![s.last()] =~= s);
    } else {
        assert(s =~= seq![]);
    }
}

/// An occurrence of the character is replaced wherever it stands, and what
/// stands around it is treated as if it stood alone.
pub proof fn every_occurrence_is_replaced(a: Seq<char>, b: Seq<char>, from: char, to: Seq<char>)
    ensures
        replaced(a.push(from) + b, from, to) == replaced(a, from, to) + to + replaced(b, from, to),
{
    text_is_replaced_part_by_part(a.push(from), b, from, to);
    assert(a.push(from).drop_last() =~= a);
}

/// Where one character is replaced by another, the text keeps its length, and
/// each of its characters its place.
pub proof fn characters_keep_their_places(s: Seq<char>, from: char, to: char)
    ensures
        replaced(s, from, seq![to]).len() == s.len(),
        forall|i: int|
            0 <= i < s.len() ==> #[trigger] replaced(s, from, seq![to])[i] == if s[i] == from {
                to
            } else {
                s[i]
            },
    decreases s.len(),
{
    if s.len() > 0 {
        characters_keep_their_places(s.drop_last(), from, to);
        let front = replaced(s.drop_last(), from, seq![to]);
        assert forall|i: int| 0 <= i < s.len() implies #[trigger] replaced(s, from, seq![to])[i]
            == (if s[i] == from {
            to
        } else {
            s[i]
        }) by {
            if i < s.len() - 1 {
                assert(replaced(s, from, seq![to])[i] == front[i]);
                assert(s.drop_last()[i] == s[i]);
            }
        }
    }
}

/// A text that is cut short is the beginning of the text, and is as long as was
/// asked for if the text is.
pub proof fn cut_text_is_the_beginning(s: Seq<char>, n: nat)
    ensures
        first_chars(s, n as int).is_prefix_of(s),
        s.len() >= n ==> first_chars(s, n as int).len() == n,
        s.len() <= n ==> first_chars(s, n as int) == s,
{
    if s.len() <= n {
        assert(s.subrange(0, s.len() as int) =~= s);
    } else {
        assert(s.subrange(0, n as int) =~= s.take(n as int));
    }
    if s.len() == n {
        assert(s.take(n as int) =~= s);
    }
}

/// A text that is filled up begins with the text, holds blanks behind it, and
/// is as wide as was asked for unless the text is wider.
pub proof fn filled_text_is_the_text_and_blanks(s: Seq<char>, width: nat)
    ensures
        s.is_prefix_of(padded(s, width as int)),
        s.len() <= width ==> padded(s, width as int).len() == width,
        s.len() >= width ==> padded(s, width as int) == s,
        forall|i: int|
            s.len() <= i < width ==> #[trigger] padded(s, width as int)[i] == ' ',
{
    let p = padded(s, width as int);
    assert(p.subrange(0, s.len() as int) =~= s);
    if s.len() >= width {
        assert(blanks(width - s.len()) =~= seq![]);
        assert(p =~= s);
    }
}

/// Each truth value is shown by its own word.
pub proof fn truth_values_are_shown(b: bool)
    ensures
        bool_text(b) == "true"@ <==> b,
        bool_text(b) == "false"@ <==> !b,
{
    reveal_strlit("true");
    reveal_strlit("false");
    assert("true"@.len() == 4 && "false"@.len() == 5);
}

/// A digit more makes a number ten times as large, and adds the digit, whose
/// value is its distance from the zero.
pub proof fn digits_count_by_tens(s: Seq<char>, c: char)
    requires
        '0' <= c <= '9',
    ensures
        is_digit(c),
        digits_value(seq![]) == 0,
        digits_value(s.push(c)) == 10 * digits_value(s) + (c as u32 - '0' as u32),
{
    assert(s.push(c).drop_last() =~= s);
}

/// Only the ten digits are digits.
pub proof fn ten_digits(c: char)
    ensures
        is_digit(c) <==> '0' <= c <= '9',
{
}

/// The notation of a number has digits only, stands for the number, and does
/// not begin with a zero unless the number is zero, which is a single digit.
pub proof fn notation_is_decimal(n: nat)
    ensures
        all_digits(decimal(n)),
        digits_value(decimal(n)) == n,
        n < 10 <==> decimal(n).len() == 1,
        decimal(n)[0] == '0' <==> n == 0,
    decreases n,
{
    decimal_reads_back(n);
    if n >= 10 {
        notation_is_decimal(n / 10);
        assert(decimal(n)[0] == decimal(n / 10)[0]);
    }
}

/// The notation of a negative number is that of the positive one behind a minus
/// sign; a number that is not negative has none.
pub proof fn negative_numbers_have_a_sign(n: int)
    ensures
        n < 0 ==> decimal_int(n) == seq!['-'] + decimal_int(-n),
        n >= 0 ==> decimal_int(n) == decimal(n as nat) && decimal_int(n)[0] != '-',
{
    reveal_strlit("-");
    assert("-"@ =~= seq!['-']);
    if n >= 0 {
        decimal_reads_back(n as nat);
        assert(is_digit(decimal(n as nat)[0]));
    }
}

/// What is read as a number: digits, at least one, with or without a plus sign
/// before them, that stand for a number within the bound.
pub proof fn numbers_are_read(s: Seq<char>, max: nat)
    requires
        s.len() > 0,
        forall|i: int| 0 <= i < s.len() ==> '0' <= #[trigger] s[i] <= '9',
    ensures
        digits_value(s) <= max ==> parsed(s, max) == Ok::<nat, NumberError>(digits_value(s)),
        digits_value(s) > max ==> parsed(s, max) == Err::<nat, NumberError>(NumberError::TooLarge),
        parsed(seq!['+'] + s, max) == parsed(s, max),
{
    assert('0' <= s[0] <= '9');
    assert(unsigned_part(s) == s);
    assert(all_digits(s));
    assert(s.take(s.len() as int) =~= s);
    assert((seq!['+'] + s).drop_first() =~= s);
}

/// A text that is empty, or holds anything but digits behind the plus sign that
/// may stand before them, is not read as a number; it is told apart whether
/// there was nothing to read.
pub proof fn other_text_is_no_number(s: Seq<char>, max: nat, i: int)
    ensures
        parsed(s, max) == Err::<nat, NumberError>(NumberError::Empty) <==> s.len() == 0,
        0 <= i < s.len() && !('0' <= s[i] <= '9') && !(i == 0 && s[0] == '+') ==> parsed(s, max)
            is Err,
        s == seq!['+'] ==> parsed(s, max) is Err,
        parsed(s, max) matches Ok(n) ==> n <= max,
{
    if 0 <= i < s.len() && !('0' <= s[i] <= '9') && !(i == 0 && s[0] == '+') {
        let d = unsigned_part(s);
        if s.len() > 1 && s[0] == '+' {
            assert(d[i - 1] == s[i]);
            assert(!is_digit(d[i - 1]));
        } else {
            assert(!is_digit(d[i]));
        }
    }
    if s == seq!['+'] {
        assert(!is_digit(unsigned_part(s)[0]));
    }
}

/// Where a number is followed by something else, it is the number that is at
/// fault if it is too large already, and what follows it if not.
pub proof fn first_fault_is_told(d: Seq<char>, c: char, rest: Seq<char>, max: nat)
    requires
        d.len() > 0,
        forall|i: int| 0 <= i < d.len() ==> '0' <= #[trigger] d[i] <= '9',
        !('0' <= c <= '9'),
    ensures
        parsed(d.push(c) + rest, max) == Err::<nat, NumberError>(
            if digits_value(d) > max {
                NumberError::TooLarge
            } else {
                NumberError::InvalidDigit
            },
        ),
{
    let s = d.push(c) + rest;
    let n = d.len() as int;
    assert('0' <= d[0] <= '9');
    assert(s[0] == d[0]);
    assert(unsigned_part(s) == s);
    assert(s[n] == c && !is_digit(s[n]));
    assert(s.take(n) =~= d);
    assert(all_digits(d));
    if digits_value(d) > max {
        assert(all_digits(s.take(n)) && digits_value(s.take(n)) > max);
        assert(passes(s, max));
    } else {
        assert forall|k: int| 0 <= k <= s.len() && all_digits(#[trigger] s.take(k)) implies digits_value(
            s.take(k),
        ) <= max by {
            if k > n {
                assert(!is_digit(s.take(k)[n]));
            } else {
                assert(s.take(k) =~= d.take(k));
                lemma_prefix_is_smaller(d, k);
            }
        }
    }
}

proof fn lemma_prefix_is_smaller(d: Seq<char>, k: int)
    requires
        0 <= k <= d.len(),
        all_digits(d),
    ensures
        digits_value(d.take(k)) <= digits_value(d),
    decreases d.len() - k,
{
    if k == d.len() {
        assert(d.take(k) =~= d);
    } else {
        lemma_prefix_is_smaller(d, k + 1);
        assert(d.take(k + 1).drop_last() =~= d.take(k));
        assert(is_digit(d[k]));
    }
}

} // verus!
