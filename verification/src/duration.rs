//! Durations as they are written on the command line: a count, and a unit
//! (`h`, `m`, `d` or `s`) that may be left out for seconds.

use vstd::prelude::*;
use vstd::string::*;

use crate::clock::{LAST_SECOND, now};
use crate::clock::is_time;
use crate::number::{NumberError, parse_number};
use crate::number::{decimal, decimal_reads_back, is_digit};
use crate::number::{parse_undoes_decimal, parsed};
use crate::text::{chars_of, text_between, trim};
use crate::text::{is_space, opt_str, trimmed};

verus! {

/// The seconds in a day.
pub const DAY: u64 = 86400;

/// The seconds that a unit stands for.
pub open spec fn unit_seconds(c: char) -> Option<nat> {
    if c == 'h' {
        Some(3600)
    } else if c == 'm' {
        Some(60)
    } else if c == 'd' {
        Some(86400)
    } else if c == 's' {
        Some(1)
    } else {
        None
    }
}

/// The text of the count, and the seconds of the unit behind it.
pub open spec fn count_and_unit(t: Seq<char>) -> (Seq<char>, nat) {
    if t.len() > 0 && unit_seconds(t.last()) is Some {
        (t.drop_last(), unit_seconds(t.last())->0)
    } else {
        (t, 1)
    }
}

/// The seconds that a duration stands for, however many they are.
pub open spec fn duration_seconds(input: Seq<char>) -> Result<nat, NumberError> {
    let (count, unit) = count_and_unit(trimmed(input));
    match parsed(count, u64::MAX as nat) {
        Ok(n) => Ok(n * unit),
        Err(e) => Err(e),
    }
}

/// Whether the seconds of a duration, if it is one, can be counted in 64 bits.
pub open spec fn duration_fits(input: Seq<char>) -> bool {
    match duration_seconds(input) {
        Ok(n) => n <= u64::MAX,
        Err(_) => true,
    }
}

/// The whole days that a duration stands for, but at least one.
pub open spec fn duration_days(input: Seq<char>) -> Result<nat, NumberError> {
    match duration_seconds(input) {
        Ok(n) => Ok(
            if n / 86400 < 1 {
                1
            } else {
                n / 86400
            },
        ),
        Err(e) => Err(e),
    }
}

/// The moment until which a pause lasts that starts at `now`. Without a duration
/// it lasts until the task is told to go on, as long as time is counted.
pub open spec fn pause_end(duration: Option<Seq<char>>, now: int) -> Result<int, NumberError> {
    match duration {
        None => Ok(i64::MAX as int),
        Some(d) => match duration_seconds(d) {
            Ok(n) => Ok(now + n),
            Err(e) => Err(e),
        },
    }
}

/// The count and the unit of a duration.
fn read_duration(input: &str) -> (r: Result<(u64, u64), NumberError>)
    ensures
        match duration_seconds(input@) {
            Ok(n) => r is Ok && r->Ok_0.0 * r->Ok_0.1 == n,
            Err(e) => r == Err::<(u64, u64), NumberError>(e),
        },
{
    let chars = chars_of(trim(input).as_str());
    let n: usize = chars.len();
    let unit: Option<u64> = if n == 0 {
        None
    } else {
        match chars[n - 1] {
            'h' => Some(3600),
            'm' => Some(60),
            'd' => Some(DAY),
            's' => Some(1),
            _ => None,
        }
    };
    let count = match unit {
        Some(_) => text_between(&chars, 0, n - 1),
        None => text_between(&chars, 0, n),
    };
    assert(count@ =~= count_and_unit(trimmed(input@)).0);
    let seconds: u64 = match unit {
        Some(s) => s,
        None => 1,
    };
    match parse_number(count.as_str(), u64::MAX) {
        Ok(value) => Ok((value, seconds)),
        Err(e) => Err(e),
    }
}

/// Whether [`parse_duration_seconds`] can be asked for `input`: false only for
/// a duration of more seconds than 64 bits can count.
pub fn seconds_fit(input: &str) -> (r: bool)
    ensures
        r == duration_fits(input@),
{
    match read_duration(input) {
        Ok((count, unit)) => {
            proof {
                lemma_product_bounds(count as int, unit as int);
            }
            (count as u128) * (unit as u128) <= u64::MAX as u128
        },
        Err(_) => true,
    }
}

/// The seconds that a duration stands for.
pub fn parse_duration_seconds(input: &str) -> (r: Result<u64, NumberError>)
    requires
        duration_fits(input@),
    ensures
        match duration_seconds(input@) {
            Ok(n) => r == Ok::<u64, NumberError>(n as u64) && n <= u64::MAX,
            Err(e) => r == Err::<u64, NumberError>(e),
        },
{
    match read_duration(input) {
        Ok((count, unit)) => Ok(count * unit),
        Err(e) => Err(e),
    }
}

/// The whole days that a duration stands for, but at least one.
pub fn parse_duration_days(input: &str) -> (r: Result<u64, NumberError>)
    requires
        duration_fits(input@),
    ensures
        match duration_days(input@) {
            Ok(n) => r == Ok::<u64, NumberError>(n as u64) && n <= u64::MAX,
            Err(e) => r == Err::<u64, NumberError>(e),
        },
{
    match parse_duration_seconds(input) {
        Ok(seconds) => {
            let days: u64 = seconds / DAY;
            Ok(
                if days < 1 {
                    1
                } else {
                    days
                },
            )
        },
        Err(e) => Err(e),
    }
}

/// Whether the end of a pause that starts at `now` can be told in 64 bits.
pub open spec fn pause_is_told(duration: Option<Seq<char>>, now: int) -> bool {
    pause_end(duration, now) matches Ok(end) ==> end <= i64::MAX
}

/// When a pause ends that starts at `now`, if that can be told in 64 bits.
pub open spec fn pause_answer(duration: Option<Seq<char>>, now: int) -> Option<
    Result<Option<i64>, NumberError>,
> {
    if pause_is_told(duration, now) {
        Some(
            match pause_end(duration, now) {
                Ok(end) => Ok(Some(end as i64)),
                Err(e) => Err(e),
            },
        )
    } else {
        None
    }
}

/// The moment until which a pause of the given duration lasts that starts at
/// `now`; `None` if that moment cannot be told in 64 bits. Without a duration
/// the pause has no end but the last moment of all.
pub fn pause_until_at(duration: Option<&str>, now: i64) -> (r: Option<
    Result<Option<i64>, NumberError>,
>)
    requires
        now >= 0,
    ensures
        r == pause_answer(opt_str(duration), now as int),
{
    let d = match duration {
        None => {
            return Some(Ok(Some(i64::MAX)));
        },
        Some(d) => d,
    };
    if !seconds_fit(d) {
        return None;
    }
    match parse_duration_seconds(d) {
        Ok(seconds) => {
            let left: i64 = i64::MAX - now;
            if seconds <= left as u64 {
                Some(Ok(Some(now + seconds as i64)))
            } else {
                None
            }
        },
        Err(e) => Some(Err(e)),
    }
}

/// The moment until which a pause of the given duration lasts that starts now;
/// `None` if that moment cannot be told in 64 bits, which takes a duration of
/// nearly as many seconds. Without a duration the pause has no end but the last
/// moment of all.
pub fn pause_until(duration: Option<&str>) -> (r: Option<Result<Option<i64>, NumberError>>)
    ensures
        duration is None ==> r == Some(Ok::<Option<i64>, NumberError>(Some(i64::MAX))),
        duration is Some ==> (duration_seconds(duration->0@) matches Err(e) ==> r == Some(
            Err::<Option<i64>, NumberError>(e),
        )),
        duration is Some ==> (duration_seconds(duration->0@) matches Ok(n) ==> {
            &&& n + LAST_SECOND <= i64::MAX ==> r is Some
            &&& n > i64::MAX ==> r is None
        }),
        exists|time: int|
            is_time(time) && #[trigger] pause_answer(opt_str(duration), time) == r,
{
    let time: i64 = now();
    let r = pause_until_at(duration, time);
    assert(pause_answer(opt_str(duration), time as int) == r);
    r
}

/// The product of two numbers of 64 bits has 128 bits at most.
proof fn lemma_product_bounds(a: int, b: int)
    requires
        0 <= a <= u64::MAX,
        0 <= b <= u64::MAX,
    ensures
        0 <= a * b <= u64::MAX * u64::MAX,
{
    assert(0 <= a * b <= u64::MAX * u64::MAX) by (nonlinear_arith)
        requires
            0 <= a <= u64::MAX,
            0 <= b <= u64::MAX,
    ;
}

/// Text that neither begins nor ends with whitespace is not changed by
/// trimming it.
proof fn lemma_trimmed_keeps(s: Seq<char>)
    requires
        s.len() > 0,
        !is_space(s[0]),
        !is_space(s.last()),
    ensures
        trimmed(s) == s,
{
}

/// A number of days reads back from its notation, the number followed by `d`:
/// what comes out is that number, or one day in place of none.
pub proof fn days_read_back(n: nat)
    requires
        n <= u64::MAX,
    ensures
        duration_days(decimal(n) + "d"@) == Ok::<nat, NumberError>(
            if n < 1 {
                1
            } else {
                n
            },
        ),
        duration_fits(decimal(n) + "d"@) <==> n * 86400 <= u64::MAX,
{
    reveal_strlit("d");
    let s = decimal(n) + "d"@;
    decimal_reads_back(n);
    assert(is_digit(decimal(n)[0]));
    assert(s[0] == decimal(n)[0]);
    assert(s.last() == 'd');
    lemma_trimmed_keeps(s);
    assert(s.drop_last() =~= decimal(n));
    parse_undoes_decimal(n, u64::MAX as nat);
}

/// A duration is at least one day long, and its days are at most those of its
/// seconds, so that the days can be turned back into seconds.
pub proof fn days_are_bounded(input: Seq<char>)
    requires
        duration_fits(input),
    ensures
        duration_days(input) matches Ok(d) ==> 1 <= d && d * 86400 <= u64::MAX,
        duration_days(input) is Ok <==> duration_seconds(input) is Ok,
{
}

} // verus!
