//! What the operations on durations, policies, numbers, texts and paths promise
//! of whatever they return.

use vstd::prelude::*;
use vstd::string::*;
use vstd::utf8::*;

use crate::commands::{CommandError, into_itself};
use crate::daemon::{default_enabled, default_stable_secs};
use crate::duration::{duration_seconds, parse_duration_days, parse_duration_seconds};
use crate::duration::{pause_until_at, seconds_fit};
use crate::duration_laws::{days_are_whole_days, other_units_are_refused, pauses_end_in_time};
use crate::duration_laws::{units_count_seconds, units_need_a_count, whitespace_around_durations};
use crate::number::{NumberError, all_digits, decimal, digits_value, is_digit, parse_number};
use crate::number::{to_decimal, to_decimal_int};
use crate::paths::{Platform, components, components_are_parted, components_of};
use crate::paths::{components_stand_between_separators, is_name, join, lies_inside};
use crate::paths::{neighbours_do_not_lie_inside, text_is_joined_as_text};
use crate::policy::{ConflictArg, ConflictPolicy, conflict_arg, conflict_report};
use crate::policy::{default_conflict_policy, policy_of};
use crate::policy_laws::{names_ask_for_their_policies, policies_bear_their_names};
use crate::shell::{quoting_is_undone, shell_words, single_quote_for_shell};
use crate::sorting::SortError;
use crate::text::{begins_with, bool_to_text, char_to_lower, chars_of, debug_text, find_char};
use crate::text::{flagged, has_char, is_space, is_text, lowered, pad_right, push_flagged};
use crate::text::{push_text, push_two, replace_char, rfind_char, same_text, take_chars};
use crate::text::{text_between, texts, three_parts, to_lower, trim, two_parts};
use crate::text_laws::{all_blank, cut_text_is_the_beginning, every_occurrence_is_replaced};
use crate::text_laws::{filled_text_is_the_text_and_blanks, negative_numbers_have_a_sign};
use crate::text_laws::{notation_is_decimal, numbers_are_read, only_capitals_are_lowered};
use crate::text_laws::{other_text_is_no_number, other_text_is_not_replaced};
use crate::text_laws::{trimming_ignores_whitespace_around, truth_values_are_shown};

verus! {

/// A count before a unit, with or without whitespace around it, is so many
/// seconds, minutes, hours or days, and alone so many seconds; in days it is at
/// least one.
pub proof fn durations_are_read(
    before: Seq<char>,
    n: nat,
    unit: char,
    behind: Seq<char>,
    input: &str,
    r: Result<u64, NumberError>,
    s: Result<u64, NumberError>,
    fits: bool,
)
    requires
        all_blank(before),
        all_blank(behind),
        n <= u64::MAX,
        unit == 's' || unit == 'm' || unit == 'h' || unit == 'd',
        input@ == before + decimal(n).push(unit) + behind,
        call_ensures(seconds_fit, (input,), fits),
        fits ==> call_ensures(parse_duration_seconds, (input,), r),
        fits ==> call_ensures(parse_duration_days, (input,), s),
    ensures
        ({
            let length: nat = if unit == 's' {
                1
            } else if unit == 'm' {
                60
            } else if unit == 'h' {
                3600
            } else {
                86400
            };
            &&& fits <==> n * length <= u64::MAX
            &&& fits ==> (r matches Ok(seconds) && seconds == n * length)
            &&& fits ==> (s matches Ok(days) && days >= 1 && n * length < (days + 1) * 86400 && (n
                * length >= 86400 ==> days * 86400 <= n * length) && (n * length < 86400 ==> days
                == 1))
        }),
{
    let text = decimal(n).push(unit);
    notation_is_decimal(n);
    assert(is_digit(decimal(n)[0]));
    units_count_seconds(n);
    whitespace_around_durations(before, text, behind);
    days_are_whole_days(input@);
    assert(n * 60 * 60 == n * 3600);
    assert(n * 60 * 60 * 24 == n * 86400);
}

/// A number alone is so many seconds; a unit alone, nothing, or a count before
/// something else is refused, and it is told why.
pub proof fn other_durations(
    n: nat,
    c: char,
    bare: &str,
    odd: &str,
    empty: &str,
    a: Result<u64, NumberError>,
    b: Result<u64, NumberError>,
    e: Result<u64, NumberError>,
)
    requires
        n <= u64::MAX,
        !('0' <= c <= '9'),
        !is_space(c),
        bare@ == decimal(n),
        odd@ == decimal(n).push(c),
        empty@.len() == 0,
        call_ensures(parse_duration_seconds, (bare,), a),
        call_ensures(parse_duration_seconds, (odd,), b),
        call_ensures(parse_duration_seconds, (empty,), e),
    ensures
        a == Ok::<u64, NumberError>(n as u64),
        c != 's' && c != 'm' && c != 'h' && c != 'd' ==> b == Err::<u64, NumberError>(
            NumberError::InvalidDigit,
        ),
        e == Err::<u64, NumberError>(NumberError::Empty),
{
    units_count_seconds(n);
    units_need_a_count('s');
    assert(empty@ =~= seq![]);
    if c != 's' && c != 'm' && c != 'h' && c != 'd' {
        other_units_are_refused(n, c);
    }
}

/// A pause ends so many seconds after its start, or never if no duration is
/// given; an end that cannot be told is not told.
pub proof fn pauses_are_told(
    duration: &str,
    start: i64,
    r: Option<Result<Option<i64>, NumberError>>,
    s: Option<Result<Option<i64>, NumberError>>,
)
    requires
        start >= 0,
        call_ensures(pause_until_at, (Some(duration), start), r),
        call_ensures(pause_until_at, (None, start), s),
    ensures
        match duration_seconds(duration@) {
            Ok(n) => if start + n <= i64::MAX {
                r matches Some(Ok(Some(end))) && end - start == n
            } else {
                r is None
            },
            Err(e) => r == Some(Err::<Option<i64>, NumberError>(e)),
        },
        s == Some(Ok::<Option<i64>, NumberError>(Some(i64::MAX))),
{
    pauses_end_in_time(duration@, start);
}

/// A policy is read from its name in letters of either case, and from nothing
/// else; its names read back; and the policy of a task that names none is to
/// rename.
pub proof fn policies_are_read(
    value: &str,
    policy: ConflictPolicy,
    r: Result<ConflictArg, String>,
    name: &'static str,
    label: &'static str,
    default: ConflictPolicy,
    secs: u64,
    enabled: bool,
)
    requires
        call_ensures(ConflictArg::from_str, (value,), r),
        call_ensures(conflict_arg, (policy,), name),
        call_ensures(conflict_report, (policy,), label),
        call_ensures(default_conflict_policy, (), default),
        call_ensures(default_stable_secs, (), secs),
        call_ensures(default_enabled, (), enabled),
    ensures
        r == Ok::<ConflictArg, String>(ConflictArg::Skip) <==> lowered(value@) == "skip"@,
        r == Ok::<ConflictArg, String>(ConflictArg::Overwrite) <==> lowered(value@)
            == "overwrite"@,
        r == Ok::<ConflictArg, String>(ConflictArg::Rename) <==> lowered(value@) == "rename"@,
        r == Ok::<ConflictArg, String>(ConflictArg::Newest) <==> lowered(value@) == "newest"@,
        r matches Err(e) ==> e@ == "expected skip, overwrite, rename, or newest"@,
        value@ == name@ || value@ == label@ ==> (r matches Ok(arg) && policy_of(arg) == policy),
        lowered(label@) == name@,
        lowered(name@) == name@,
        default == ConflictPolicy::Rename,
        secs == 2,
        enabled,
{
    names_ask_for_their_policies(value@);
    policies_bear_their_names(policy);
}

/// A number is written by its digits, without leading zeros, and reads back; a
/// negative one behind a minus sign.
pub proof fn numbers_are_written(
    n: u128,
    m: i64,
    text: &str,
    max: u64,
    r: String,
    s: String,
    t: Result<u64, NumberError>,
)
    requires
        call_ensures(to_decimal, (n,), r),
        call_ensures(to_decimal_int, (m,), s),
        text@ == r@,
        call_ensures(parse_number, (text, max), t),
    ensures
        all_digits(r@),
        digits_value(r@) == n,
        r@[0] == '0' <==> n == 0,
        n < 10 <==> r@.len() == 1,
        n <= max ==> t == Ok::<u64, NumberError>(n as u64),
        n > max ==> t == Err::<u64, NumberError>(NumberError::TooLarge),
        m < 0 ==> s@ == seq!['-'] + decimal((-m) as nat),
        m >= 0 ==> s@ == decimal(m as nat),
{
    notation_is_decimal(n as nat);
    assert forall|i: int| 0 <= i < r@.len() implies '0' <= #[trigger] r@[i] <= '9' by {
        assert(is_digit(r@[i]));
    }
    numbers_are_read(r@, max as nat);
    negative_numbers_have_a_sign(m as int);
    negative_numbers_have_a_sign(-m as int);
}

/// What is no number is refused: nothing, and anything but digits behind the
/// plus sign that may stand before them; what is read is within the bound.
pub proof fn other_texts_are_no_numbers(text: &str, max: u64, i: int, r: Result<u64, NumberError>)
    requires
        call_ensures(parse_number, (text, max), r),
    ensures
        r == Err::<u64, NumberError>(NumberError::Empty) <==> text@.len() == 0,
        0 <= i < text@.len() && !('0' <= text@[i] <= '9') && !(i == 0 && text@[0] == '+') ==> r
            is Err,
        text@ == seq!['+'] ==> r is Err,
        r matches Ok(n) ==> n <= max,
{
    other_text_is_no_number(text@, max as nat, i);
}

/// Trimming cuts off whitespace at the two ends and nothing else.
pub proof fn texts_are_trimmed(
    before: Seq<char>,
    s: Seq<char>,
    behind: Seq<char>,
    text: &str,
    r: String,
)
    requires
        all_blank(before),
        all_blank(behind),
        s.len() > 0 ==> !is_space(s[0]) && !is_space(s.last()),
        text@ == before + s + behind,
        call_ensures(trim, (text,), r),
    ensures
        r@ == s,
{
    trimming_ignores_whitespace_around(before, s, behind);
}

/// Lower case changes capitals only; replacing changes the character that is
/// replaced only, wherever it stands.
pub proof fn texts_are_changed(
    text: &str,
    a: Seq<char>,
    b: Seq<char>,
    from: char,
    to: &str,
    r: String,
    s: String,
)
    requires
        call_ensures(to_lower, (text,), r),
        call_ensures(replace_char, (text, from, to), s),
    ensures
        r@.len() == text@.len(),
        forall|i: int|
            0 <= i < text@.len() ==> #[trigger] r@[i] as int == if 'A' <= text@[i] <= 'Z' {
                text@[i] as int + 32
            } else {
                text@[i] as int
            },
        !text@.contains(from) ==> s@ == text@,
        text@ == a.push(from) + b && !a.contains(from) && !b.contains(from) ==> s@ == a + to@ + b,
{
    only_capitals_are_lowered(text@);
    if !text@.contains(from) {
        other_text_is_not_replaced(text@, from, to@);
    }
    if text@ == a.push(from) + b && !a.contains(from) && !b.contains(from) {
        every_occurrence_is_replaced(a, b, from, to@);
        other_text_is_not_replaced(a, from, to@);
        other_text_is_not_replaced(b, from, to@);
    }
}

/// Texts are compared, searched, cut and filled up as they are.
pub proof fn texts_are_looked_at(
    a: &str,
    b: &str,
    c: char,
    n: usize,
    t: bool,
    same: bool,
    begins: bool,
    has: bool,
    is: bool,
    cut: String,
    filled: String,
    word: &'static str,
)
    requires
        call_ensures(same_text, (a, b), same),
        call_ensures(begins_with, (a, b), begins),
        call_ensures(has_char, (a, c), has),
        call_ensures(is_text, (Some(a), b), is),
        call_ensures(take_chars, (a, n), cut),
        call_ensures(pad_right, (a, n), filled),
        call_ensures(bool_to_text, (t,), word),
    ensures
        same <==> a@ == b@,
        is <==> a@ == b@,
        begins <==> b@.len() <= a@.len() && forall|i: int| 0 <= i < b@.len() ==> a@[i] == b@[i],
        has <==> exists|i: int| 0 <= i < a@.len() && a@[i] == c,
        cut@.is_prefix_of(a@),
        a@.len() >= n ==> cut@.len() == n,
        a@.len() <= n ==> cut@ == a@,
        a@.is_prefix_of(filled@),
        a@.len() <= n ==> filled@.len() == n,
        a@.len() >= n ==> filled@ == a@,
        forall|i: int| a@.len() <= i < n ==> #[trigger] filled@[i] == ' ',
        word@ == "true"@ <==> t,
        word@ == "false"@ <==> !t,
{
    cut_text_is_the_beginning(a@, n as nat);
    filled_text_is_the_text_and_blanks(a@, n as nat);
    truth_values_are_shown(t);
    if b@.len() <= a@.len() && (forall|i: int| 0 <= i < b@.len() ==> a@[i] == b@[i]) {
        assert(a@.subrange(0, b@.len() as int) =~= b@);
    }
    if b@.is_prefix_of(a@) {
        assert forall|i: int| 0 <= i < b@.len() implies a@[i] == b@[i] by {
            assert(a@.subrange(0, b@.len() as int)[i] == a@[i]);
        }
    }
}

/// What is quoted for a shell is read back between single quotes as it was.
pub proof fn quoted_texts_are_read_back(text: &str, r: String)
    requires
        call_ensures(single_quote_for_shell, (text,), r),
    ensures
        shell_words(seq!['\''] + r@ + seq!['\'']) == Some(seq![text@]),
{
    quoting_is_undone(text@);
}

/// What is joined to a path that is text stands behind it, parted by one
/// separator of the platform.
pub proof fn paths_are_joined(base: Seq<char>, bytes: &[u8], name: &str, unix: Vec<u8>, windows: Vec<u8>)
    requires
        bytes@ == encode_utf8(base),
        call_ensures(join, (Platform::Unix, bytes, name), unix),
        call_ensures(join, (Platform::Windows, bytes, name), windows),
    ensures
        base.len() > 0 && base.last() != '/' ==> unix@ == encode_utf8(base.push('/') + name@),
        base.len() > 0 && base.last() == '/' ==> unix@ == encode_utf8(base + name@) && windows@
            == encode_utf8(base + name@),
        base.len() > 2 && base.last() != '/' && base.last() != '\\' ==> windows@ == encode_utf8(
            base.push('\\') + name@,
        ),
        base.len() > 0 && base.last() == '\\' ==> windows@ == encode_utf8(base + name@),
{
    text_is_joined_as_text(Platform::Unix, base, name@);
    text_is_joined_as_text(Platform::Windows, base, name@);
    components_are_parted(Platform::Unix, base, name@, 'a');
    components_are_parted(Platform::Windows, base, name@, 'a');
}

/// A folder lies inside another if it goes on behind it, and what stands beside
/// it does not, though its name begin alike; a separator at its end does not
/// matter to its components.
pub proof fn folders_lie_inside(
    platform: Platform,
    base: &str,
    a: &str,
    b: &str,
    x: Seq<char>,
    y: Seq<char>,
    sep: char,
    beside: bool,
    inside: bool,
    around: bool,
    parts: Vec<String>,
)
    requires
        base@.len() > 0,
        is_name(platform, x),
        is_name(platform, y),
        platform == Platform::Unix ==> sep == '/',
        platform == Platform::Windows ==> sep == '/' || sep == '\\',
        a@ == base@.push(sep) + x,
        b@ == base@.push(sep) + y,
        call_ensures(lies_inside, (platform, a, b), beside),
        call_ensures(lies_inside, (platform, base, a), inside),
        call_ensures(lies_inside, (platform, a, base), around),
        call_ensures(components_of, (platform, a), parts),
    ensures
        beside <==> x == y,
        inside,
        !around,
        parts@.len() > 0,
        parts@.last()@ == x,
        parts@.len() == components(platform, base@).len() + 1,
{
    components_are_parted(platform, base@, x, sep);
    neighbours_do_not_lie_inside(platform, base@, x, y, sep);
    components_stand_between_separators(platform, base@, x, sep);
    let t = texts(parts@);
    assert(t.len() == parts@.len());
    assert(t.last() == parts@.last()@);
}

/// Errors are told in words of their own, with what they are about.
pub proof fn errors_are_told(
    number: &NumberError,
    sort: &SortError,
    command: &CommandError,
    shown: &str,
    a: &'static str,
    b: String,
    c: String,
    d: String,
)
    requires
        call_ensures(NumberError::message, (number,), a),
        call_ensures(SortError::message, (sort,), b),
        call_ensures(CommandError::message, (command,), c),
        call_ensures(into_itself, (shown,), d),
    ensures
        *number == NumberError::Empty ==> a@ == "cannot parse integer from empty string"@,
        *number == NumberError::InvalidDigit ==> a@ == "invalid digit found in string"@,
        *number == NumberError::TooLarge ==> a@ == "number too large to fit in target type"@,
        *sort matches SortError::BadRule(rule) ==> b@ == "invalid rule "@ + rule@
            + ", expected pattern=destination"@,
        *sort matches SortError::BadPattern { pos, msg } ==> b@
            == "Pattern syntax error near position "@ + decimal(pos as nat) + ": "@ + msg@,
        command is NoRules ==> c@ == "sort requires at least one --rule \"pattern=destination\""@,
        command is NoDaemon ==> c@ == "Cannot spawn daemon for this command"@,
        *command matches CommandError::BadAge(e) && e == *number ==> c@ == a@,
        d@ == "Cannot mirror a folder into its own subdirectory: "@ + shown@,
        *command matches CommandError::IntoItself(dest) && shown@ == debug_text(dest@)
            ==> c@ == d@,
{
}

/// A character is found where it first stands, and from behind where it last
/// stands; what lies between two places is the text between them.
pub proof fn characters_are_found(
    text: &str,
    c: char,
    from: usize,
    to: usize,
    chars: &Vec<char>,
    first: Option<usize>,
    last: Option<usize>,
    part: String,
)
    requires
        call_ensures(chars_of, (text,), *chars),
        call_ensures(find_char, (chars, c), first),
        call_ensures(rfind_char, (chars, c), last),
        from <= to <= chars@.len(),
        call_ensures(text_between, (chars, from, to), part),
    ensures
        first is None <==> !text@.contains(c),
        last is None <==> !text@.contains(c),
        first matches Some(i) ==> i < text@.len() && text@[i as int] == c && forall|j: int|
            0 <= j < i ==> text@[j] != c,
        last matches Some(i) ==> i < text@.len() && text@[i as int] == c && forall|j: int|
            i < j < text@.len() ==> text@[j] != c,
        part@.len() == to - from,
        forall|j: int| 0 <= j < part@.len() ==> #[trigger] part@[j] == text@[from + j],
{
    if let Some(i) = first {
        assert(text@.contains(text@[i as int]));
        assert forall|j: int| 0 <= j < i implies text@[j] != c by {
            assert(text@.take(i as int)[j] == text@[j]);
        }
    }
    if let Some(i) = last {
        assert(text@.contains(text@[i as int]));
        assert forall|j: int| i < j < text@.len() implies text@[j] != c by {
            assert(text@.skip(i + 1)[j - i - 1] == text@[j]);
        }
    }
}

/// Only a capital is changed in lower case, to the letter 32 behind it; texts are
/// put together in their order.
pub proof fn texts_are_put_together(
    a: &str,
    b: &str,
    c: &str,
    letter: char,
    lower: char,
    two: String,
    three: String,
)
    requires
        call_ensures(char_to_lower, (letter,), lower),
        call_ensures(two_parts, (a, b), two),
        call_ensures(three_parts, (a, b, c), three),
    ensures
        'A' <= letter <= 'Z' ==> lower as int == letter as int + 32,
        !('A' <= letter <= 'Z') ==> lower == letter,
        two@.len() == a@.len() + b@.len(),
        a@.is_prefix_of(two@) && b@.is_suffix_of(two@),
        three@.len() == a@.len() + b@.len() + c@.len(),
        a@.is_prefix_of(three@) && c@.is_suffix_of(three@),
        three@.subrange(a@.len() as int, (a@.len() + b@.len()) as int) == b@,
{
    assert(two@.subrange(0, a@.len() as int) =~= a@);
    assert(two@.subrange(a@.len() as int, two@.len() as int) =~= b@);
    assert(three@.subrange(0, a@.len() as int) =~= a@);
    assert(three@.subrange((a@.len() + b@.len()) as int, three@.len() as int) =~= c@);
    assert(three@.subrange(a@.len() as int, (a@.len() + b@.len()) as int) =~= b@);
    let s = seq![letter];
    only_capitals_are_lowered(s);
    assert(lowered(s)[0] == lower);
    assert(s[0] == letter);
}

/// Texts that are added to a list stand behind what was there, in their order.
pub proof fn texts_are_added(
    list: &mut Vec<String>,
    more: &mut Vec<String>,
    flags: &mut Vec<String>,
    a: &str,
    b: &str,
    values: &Vec<String>,
)
    requires
        call_ensures(push_text, (list, a), ()),
        call_ensures(push_two, (more, a, b), ()),
        call_ensures(push_flagged, (flags, a, values), ()),
        values@.len() == 1,
    ensures
        texts(final(list)@) == texts(old(list)@).push(a@),
        texts(final(more)@) == texts(old(more)@).push(a@).push(b@),
        texts(final(flags)@) == texts(old(flags)@).push(a@).push(values@[0]@),
{
    let t = texts(values@);
    assert(t =~= seq![values@[0]@]);
    assert(t.drop_last() =~= seq![]);
    assert(flagged(a@, t.drop_last()) =~= seq![]);
    assert(flagged(a@, t) =~= seq![a@, values@[0]@]);
}

} // verus!
