//! The log of a daemon, shown page by page.

use vstd::prelude::*;
use vstd::string::*;

use crate::number::{decimal, parsed};
use crate::number::{parse_number, to_decimal};
use crate::records::lines;
use crate::records::lines_of;
use crate::text::{lowered, opt_str, texts, trimmed};
use crate::text::is_space;
use crate::text::{push_text, same_text, to_lower, trim};
use crate::text_laws::{all_blank, only_capitals_are_lowered, trimming_ignores_whitespace_around};

verus! {

/// The number of lines on a page.
pub const PAGE_SIZE: usize = 25;

/// The process that `target` is the number of, if it is one.
pub fn parse_pid(target: &str) -> (r: Option<u32>)
    ensures
        match parsed(target@, u32::MAX as nat) {
            Ok(pid) => r is Some && r->0 == pid,
            Err(_) => r is None,
        },
{
    match parse_number(target, u32::MAX as u64) {
        Ok(pid) => Some(pid as u32),
        Err(_) => None,
    }
}

/// The message about a process that has no log at `path`.
pub fn no_logs(pid: u32, path: &str) -> (r: String)
    ensures
        r@ == "No logs found for PID "@ + decimal(pid as nat) + " at "@ + path@,
{
    let mut out = "No logs found for PID ".to_owned();
    out.append(to_decimal(pid as u128).as_str());
    out.append(" at ");
    out.append(path);
    out
}

/// Where the page ends that begins with line `start` of `total`.
pub open spec fn page_end(start: int, total: int) -> int {
    if start + 25 <= total {
        start + 25
    } else {
        total
    }
}

/// The number of pages that so many lines fill.
pub open spec fn page_count(total: int) -> int {
    (total + 24) / 25
}

/// Page number `k` of the lines.
pub open spec fn page(all: Seq<Seq<char>>, k: int) -> Seq<Seq<char>> {
    all.subrange(25 * k, page_end(25 * k, all.len() as int))
}

/// The pages of a log.
pub fn log_pages(text: &str) -> (r: Vec<Vec<String>>)
    ensures
        r@.len() == page_count(lines(text@).len() as int),
        forall|k: int|
            0 <= k < r@.len() ==> texts((#[trigger] r@[k])@) == page(lines(text@), k),
{
    let all = lines_of(text);
    let ghost whole = lines(text@);
    let total: usize = all.len();
    let mut out: Vec<Vec<String>> = Vec::new();
    let mut start: usize = 0;
    while start < total
        invariant
            total == all@.len(),
            texts(all@) == whole,
            whole.len() == total,
            start <= total,
            start == 25 * out@.len() || start == total && out@.len() == page_count(total as int),
            start == 0 ==> out@.len() == 0,
            forall|k: int| 0 <= k < out@.len() ==> texts((#[trigger] out@[k])@) == page(whole, k),
        decreases total - start,
    {
        let end: usize = if total - start >= PAGE_SIZE {
            start + PAGE_SIZE
        } else {
            total
        };
        let ghost k = out@.len() as int;
        assert(start == 25 * k && end == page_end(25 * k, total as int));
        let mut one: Vec<String> = Vec::new();
        let mut i: usize = start;
        while i < end
            invariant
                start <= i <= end <= total,
                total == all@.len(),
                texts(all@) == whole,
                texts(one@) =~= whole.subrange(start as int, i as int),
            decreases end - i,
        {
            assert(whole[i as int] == all@[i as int]@);
            push_text(&mut one, all[i].as_str());
            i = i + 1;
        }
        assert(texts(one@) == page(whole, k));
        out.push(one);
        start = end;
    }
    out
}

/// Whether the answer between two pages is to stop.
pub open spec fn is_quit(input: Seq<char>) -> bool {
    lowered(trimmed(input)) == "q"@
}

/// Whether the answer between two pages is to stop.
pub fn quits(input: &str) -> (r: bool)
    ensures
        r == is_quit(input@),
{
    same_text(to_lower(trim(input).as_str()).as_str(), "q")
}

/// The pages hold every line once, in order: line `i` stands on page `i / 25`
/// at place `i % 25`, no page is empty, and all but the last are full.
pub proof fn pages_hold_all_lines(all: Seq<Seq<char>>)
    ensures
        forall|i: int|
            0 <= i < all.len() ==> 0 <= i / 25 < page_count(all.len() as int) && i % 25 < page(
                all,
                i / 25,
            ).len() && #[trigger] all[i] == page(all, i / 25)[i % 25],
        forall|k: int|
            0 <= k < page_count(all.len() as int) ==> 0 < (#[trigger] page(all, k)).len() <= 25,
        forall|k: int|
            0 <= k < page_count(all.len() as int) - 1 ==> (#[trigger] page(all, k)).len() == 25,
{
}

/// The next thing that is done to show a log.
#[derive(Clone, Copy, Debug, PartialEq, Eq, Structural)]
pub enum LogStep {
    /// The page with this number is shown.
    Show(usize),
    /// It is asked whether to go on.
    Ask,
    /// The closing line is printed, and that is all.
    End,
}

/// What is done next to show a log of so many pages, the first `shown` of which
/// were shown. `reply` is the answer that was given since the last of them, if
/// it was asked for.
pub open spec fn next_step(pages: int, shown: int, reply: Option<Seq<char>>) -> LogStep {
    if shown >= pages {
        LogStep::End
    } else if shown == 0 {
        LogStep::Show(0)
    } else {
        match reply {
            None => LogStep::Ask,
            Some(answer) => if is_quit(answer) {
                LogStep::End
            } else {
                LogStep::Show(shown as usize)
            },
        }
    }
}

/// What is done next to show a log of so many pages, the first `shown` of which
/// were shown: between two pages it is asked whether to go on, and the log ends
/// behind the last page or where the answer is to stop. `reply` is the answer
/// that was given since the last page shown, if it was asked for.
pub fn show_logs(pages: usize, shown: usize, reply: Option<&str>) -> (r: LogStep)
    ensures
        r == next_step(pages as int, shown as int, opt_str(reply)),
{
    if shown >= pages {
        LogStep::End
    } else if shown == 0 {
        LogStep::Show(0)
    } else {
        match reply {
            None => LogStep::Ask,
            Some(answer) => if quits(answer) {
                LogStep::End
            } else {
                LogStep::Show(shown)
            },
        }
    }
}

/// What is asked between two pages.
pub fn more_prompt() -> (r: &'static str)
    ensures
        r@ == "--More-- (Enter: next, q: quit) "@,
{
    "--More-- (Enter: next, q: quit) "
}

/// The closing line of a log.
pub fn closing_line() -> (r: &'static str)
    ensures
        r@ == "(END)"@,
{
    "(END)"
}

/// All that is done to show a log of so many pages, from where the first
/// `shown` of them were shown, when the answers that are asked for are `replies`
/// in their order.
pub open spec fn showing(pages: int, shown: int, replies: Seq<Seq<char>>) -> Seq<LogStep>
    decreases pages - shown,
{
    if shown >= pages {
        seq![next_step(pages, shown, None)]
    } else if next_step(pages, shown, None) == LogStep::Ask {
        let step = next_step(pages, shown, Some(replies[0]));
        seq![LogStep::Ask, step] + if step == LogStep::End {
            seq![]
        } else {
            showing(pages, shown + 1, replies.drop_first())
        }
    } else {
        seq![next_step(pages, shown, None)] + showing(pages, shown + 1, replies)
    }
}

/// The number of the page behind which the log ends: the first for which the
/// answer is to stop, or else the last.
pub open spec fn stops_behind(pages: int, replies: Seq<Seq<char>>) -> int
    decreases pages,
{
    if pages <= 1 || is_quit(replies[0]) {
        0
    } else {
        1 + stops_behind(pages - 1, replies.drop_first())
    }
}

/// The steps that show pages `from` to `to`, with a question before each but
/// the very first page of the log, and then the end.
pub open spec fn page_by_page(from: int, to: int) -> Seq<LogStep>
    decreases to - from + 1,
{
    if from > to {
        seq![LogStep::End]
    } else if from == 0 {
        seq![LogStep::Show(0)] + page_by_page(1, to)
    } else {
        seq![LogStep::Ask, LogStep::Show(from as usize)] + page_by_page(from + 1, to)
    }
}

proof fn lemma_showing(pages: int, shown: int, replies: Seq<Seq<char>>)
    requires
        0 < shown <= pages <= usize::MAX,
    ensures
        ({
            let k = shown - 1 + stops_behind(pages - shown + 1, replies);
            &&& shown - 1 <= k < pages
            &&& showing(pages, shown, replies) == if k + 1 < pages {
                page_by_page(shown, k).drop_last() + seq![LogStep::Ask, LogStep::End]
            } else {
                page_by_page(shown, k)
            }
        }),
    decreases pages - shown,
{
    let k = shown - 1 + stops_behind(pages - shown + 1, replies);
    let steps = showing(pages, shown, replies);
    if shown == pages {
        assert(steps =~= page_by_page(shown, k));
    } else if is_quit(replies[0]) {
        assert(steps =~= seq![LogStep::Ask, LogStep::End]);
        assert(page_by_page(shown, k).drop_last() =~= seq![]);
        assert(page_by_page(shown, k).drop_last() + seq![LogStep::Ask, LogStep::End] =~= steps);
    } else {
        let rest = showing(pages, shown + 1, replies.drop_first());
        lemma_showing(pages, shown + 1, replies.drop_first());
        let two = seq![LogStep::Ask, LogStep::Show(shown as usize)];
        let tail = page_by_page(shown + 1, k);
        lemma_ends(shown + 1, k);
        assert(steps =~= two + rest);
        assert(page_by_page(shown, k) =~= two + tail);
        if k + 1 < pages {
            assert((two + tail).drop_last() =~= two + tail.drop_last());
            assert(steps =~= page_by_page(shown, k).drop_last() + seq![LogStep::Ask, LogStep::End]);
        }
    }
}

proof fn lemma_ends(from: int, to: int)
    ensures
        page_by_page(from, to).len() > 0,
        page_by_page(from, to).last() == LogStep::End,
    decreases to - from + 1,
{
    if from <= to {
        lemma_ends(from + 1, to);
    }
}

/// A log is shown page by page, in order and each page once, with a question
/// between two pages: up to the first page behind which the answer is to stop,
/// or to the last, behind which nothing is asked. Whichever it is, the closing
/// line comes once, at the end.
pub proof fn log_is_shown_page_by_page(pages: int, replies: Seq<Seq<char>>)
    requires
        0 <= pages <= usize::MAX,
    ensures
        pages == 0 ==> showing(pages, 0, replies) == seq![LogStep::End],
        pages > 0 ==> {
            let k = stops_behind(pages, replies);
            &&& 0 <= k < pages
            &&& showing(pages, 0, replies) == if k + 1 < pages {
                page_by_page(0, k).drop_last() + seq![LogStep::Ask, LogStep::End]
            } else {
                page_by_page(0, k)
            }
        },
{
    if pages > 0 {
        let k = stops_behind(pages, replies);
        lemma_showing(pages, 1, replies);
        lemma_ends(1, k);
        let one = seq![LogStep::Show(0)];
        let tail = page_by_page(1, k);
        assert(showing(pages, 0, replies) =~= one + showing(pages, 1, replies));
        assert(page_by_page(0, k) =~= one + tail);
        if k + 1 < pages {
            assert((one + tail).drop_last() =~= one + tail.drop_last());
            assert(showing(pages, 0, replies) =~= page_by_page(0, k).drop_last() + seq![
                LogStep::Ask,
                LogStep::End,
            ]);
        }
    }
}

/// The answer that stops is a single `q`, in either case, with or without
/// whitespace around it.
pub proof fn a_single_q_stops(before: Seq<char>, answer: Seq<char>, behind: Seq<char>)
    requires
        all_blank(before),
        all_blank(behind),
        answer.len() > 0 ==> !is_space(answer[0]) && !is_space(answer.last()),
    ensures
        is_quit(before + answer + behind) <==> answer == seq!['q'] || answer == seq!['Q'],
{
    reveal_strlit("q");
    assert("q"@ =~= seq!['q']);
    trimming_ignores_whitespace_around(before, answer, behind);
    only_capitals_are_lowered(answer);
    let low = lowered(answer);
    if low == "q"@ {
        assert(low[0] as int == 'q' as int);
        assert(answer =~= seq![answer[0]]);
    }
    if answer == seq!['q'] || answer == seq!['Q'] {
        assert(low =~= seq!['q']);
    }
}

/// There are as many pages as it takes to hold the lines at 25 a page, and none
/// for none.
pub proof fn pages_are_as_many_as_needed(total: nat, k: int)
    ensures
        25 * (page_count(total as int) - 1) < total || total == 0,
        total <= 25 * page_count(total as int),
        total == 0 ==> page_count(total as int) == 0,
        k <= total ==> k <= page_end(k, total as int) <= total && page_end(k, total as int) <= k + 25
            && (page_end(k, total as int) == k + 25 || page_end(k, total as int) == total),
{
}

/// Nothing is asked before the first page or behind the last; between two pages
/// it is asked, and the next page shown unless the answer is to stop. The log
/// ends exactly where all pages are shown or the answer is to stop.
pub proof fn next_step_of_a_log(pages: usize, shown: usize, answer: Seq<char>)
    ensures
        next_step(pages as int, shown as int, None) == LogStep::Ask <==> 0 < shown < pages,
        next_step(pages as int, shown as int, None) == LogStep::End <==> shown >= pages,
        next_step(pages as int, shown as int, None) == LogStep::Show(shown) <==> shown == 0 && pages
            > 0,
        0 < shown < pages ==> (next_step(pages as int, shown as int, Some(answer)) == LogStep::End
            <==> is_quit(answer)),
        0 < shown < pages && !is_quit(answer) ==> next_step(
            pages as int,
            shown as int,
            Some(answer),
        ) == LogStep::Show(shown),
        shown >= pages ==> next_step(pages as int, shown as int, Some(answer)) == LogStep::End,
{
}

} // verus!
