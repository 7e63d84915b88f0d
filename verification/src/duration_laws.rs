//! Laws of durations and of pauses.

use vstd::prelude::*;
use vstd::string::*;

use crate::duration::{duration_days, duration_fits, duration_seconds, pause_answer};
use crate::number::{NumberError, all_digits, decimal, decimal_reads_back, digits_value, is_digit};
use crate::text::{is_space, trimmed};
use crate::text_laws::{all_blank, first_fault_is_told, notation_is_decimal, numbers_are_read};
use crate::text_laws::{other_text_is_no_number, trimming_ignores_whitespace_around};

verus! {

proof fn lemma_bare_text(s: Seq<char>)
    requires
        s.len() > 0,
        !is_space(s[0]),
        !is_space(s.last()),
    ensures
        trimmed(s) == s,
{
    let none = Seq::<char>::empty();
    trimming_ignores_whitespace_around(none, s, none);
    assert(none + s + none =~= s);
}

/// A count stands for so many seconds, alone or before an `s`; before an `m`
/// for so many minutes of 60 seconds, before an `h` for so many hours of 60
/// minutes, and before a `d` for so many days of 24 hours.
pub proof fn units_count_seconds(n: nat)
    requires
        n <= u64::MAX,
    ensures
        duration_seconds(decimal(n)) == Ok::<nat, NumberError>(n),
        duration_seconds(decimal(n).push('s')) == Ok::<nat, NumberError>(n),
        duration_seconds(decimal(n).push('m')) == Ok::<nat, NumberError>(n * 60),
        duration_seconds(decimal(n).push('h')) == Ok::<nat, NumberError>(n * 60 * 60),
        duration_seconds(decimal(n).push('d')) == Ok::<nat, NumberError>(n * 60 * 60 * 24),
{
    notation_is_decimal(n);
    decimal_reads_back(n);
    let d = decimal(n);
    assert forall|i: int| 0 <= i < d.len() implies '0' <= #[trigger] d[i] <= '9' by {
        assert(is_digit(d[i]));
    }
    numbers_are_read(d, u64::MAX as nat);
    assert(is_digit(d[0]) && is_digit(d[d.len() - 1]));
    lemma_bare_text(d);
    lemma_bare_text(d.push('s'));
    lemma_bare_text(d.push('m'));
    lemma_bare_text(d.push('h'));
    lemma_bare_text(d.push('d'));
    assert(d.push('s').drop_last() =~= d);
    assert(d.push('m').drop_last() =~= d);
    assert(d.push('h').drop_last() =~= d);
    assert(d.push('d').drop_last() =~= d);
    assert(n * 60 * 60 == n * 3600);
    assert(n * 60 * 60 * 24 == n * 86400);
}

/// A number with leading zeros or a plus sign is the same duration.
pub proof fn digits_are_a_duration(s: Seq<char>)
    requires
        s.len() > 0,
        all_digits(s),
        digits_value(s) <= u64::MAX,
    ensures
        duration_seconds(s) == Ok::<nat, NumberError>(digits_value(s)),
        duration_seconds(seq!['+'] + s) == duration_seconds(s),
{
    assert forall|i: int| 0 <= i < s.len() implies '0' <= #[trigger] s[i] <= '9' by {
        assert(is_digit(s[i]));
    }
    numbers_are_read(s, u64::MAX as nat);
    assert(is_digit(s[0]) && is_digit(s[s.len() - 1]));
    lemma_bare_text(s);
    lemma_bare_text(seq!['+'] + s);
    assert((seq!['+'] + s).last() == s[s.len() - 1]);
}

/// Whitespace around a duration does not matter.
pub proof fn whitespace_around_durations(before: Seq<char>, s: Seq<char>, behind: Seq<char>)
    requires
        all_blank(before),
        all_blank(behind),
        s.len() > 0 ==> !is_space(s[0]) && !is_space(s.last()),
    ensures
        duration_seconds(before + s + behind) == duration_seconds(s),
        duration_days(before + s + behind) == duration_days(s),
{
    trimming_ignores_whitespace_around(before, s, behind);
    let none = Seq::<char>::empty();
    trimming_ignores_whitespace_around(none, s, none);
    assert(none + s + none =~= s);
}

/// Nothing, or a unit without a count, is no duration for want of a number.
pub proof fn units_need_a_count(c: char)
    requires
        c == 's' || c == 'm' || c == 'h' || c == 'd',
    ensures
        duration_seconds(seq![]) == Err::<nat, NumberError>(NumberError::Empty),
        duration_seconds(seq![c]) == Err::<nat, NumberError>(NumberError::Empty),
{
    let none = Seq::<char>::empty();
    trimming_ignores_whitespace_around(none, none, none);
    assert(none + none + none =~= none);
    lemma_bare_text(seq![c]);
    assert(seq![c].drop_last() =~= none);
    other_text_is_no_number(none, u64::MAX as nat, 0);
}

/// A count before anything but one of the four units is no duration; nor is a
/// count that is too large for 64 bits.
pub proof fn other_units_are_refused(n: nat, c: char)
    requires
        !('0' <= c <= '9'),
        !is_space(c),
        c != 's' && c != 'm' && c != 'h' && c != 'd',
    ensures
        n <= u64::MAX ==> duration_seconds(decimal(n).push(c)) == Err::<nat, NumberError>(
            NumberError::InvalidDigit,
        ),
        n > u64::MAX ==> duration_seconds(decimal(n).push(c)) == Err::<nat, NumberError>(
            NumberError::TooLarge,
        ),
        n > u64::MAX ==> duration_seconds(decimal(n)) == Err::<nat, NumberError>(
            NumberError::TooLarge,
        ),
        n > u64::MAX ==> duration_seconds(decimal(n).push('d')) == Err::<nat, NumberError>(
            NumberError::TooLarge,
        ),
{
    notation_is_decimal(n);
    decimal_reads_back(n);
    let d = decimal(n);
    assert forall|i: int| 0 <= i < d.len() implies '0' <= #[trigger] d[i] <= '9' by {
        assert(is_digit(d[i]));
    }
    assert(is_digit(d[0]) && is_digit(d[d.len() - 1]));
    let s = d.push(c);
    lemma_bare_text(s);
    lemma_bare_text(d);
    lemma_bare_text(d.push('d'));
    assert(d.push('d').drop_last() =~= d);
    first_fault_is_told(d, c, seq![], u64::MAX as nat);
    assert(s + seq![] =~= s);
    numbers_are_read(d, u64::MAX as nat);
}

/// The days of a duration are the whole days in its seconds, or one if it is
/// shorter than that; what is no duration in seconds is none in days, for the
/// same reason.
pub proof fn days_are_whole_days(input: Seq<char>)
    ensures
        match duration_seconds(input) {
            Ok(n) => duration_days(input) matches Ok(days) && days >= 1 && n < (days + 1) * 86400
                && (n >= 86400 ==> days * 86400 <= n) && (n < 86400 ==> days == 1),
            Err(e) => duration_days(input) == Err::<nat, NumberError>(e),
        },
        duration_fits(input) <==> (duration_seconds(input) matches Ok(n) ==> n
            <= 18_446_744_073_709_551_615),
{
}

/// A pause of so many seconds ends so many seconds after its start, if that can
/// be told; what is no duration is no pause, for the same reason; and a pause
/// without a duration ends at no time that can come.
pub proof fn pauses_end_in_time(duration: Seq<char>, start: i64)
    requires
        start >= 0,
    ensures
        match duration_seconds(duration) {
            Ok(n) => if start + n <= i64::MAX {
                pause_answer(Some(duration), start as int) matches Some(Ok(Some(end))) && end
                    - start == n
            } else {
                pause_answer(Some(duration), start as int) is None
            },
            Err(e) => pause_answer(Some(duration), start as int) == Some(
                Err::<Option<i64>, NumberError>(e),
            ),
        },
        pause_answer(None, start as int) matches Some(Ok(Some(end))) && end == i64::MAX,
{
}

} // verus!
