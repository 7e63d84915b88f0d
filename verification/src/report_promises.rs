//! What the operations that show, record and ask promise of whatever they
//! return.

use vstd::prelude::*;
use vstd::string::*;

use crate::commands::Commands;
use crate::daemon::{DaemonTask, HistoryEvent, TaskType};
use crate::logs::{LogStep, a_single_q_stops, closing_line, log_pages, more_prompt, no_logs, page};
use crate::logs::{pages_are_as_many_as_needed, pages_hold_all_lines, parse_pid, quits, show_logs};
use crate::number::{NumberError, decimal, decimal_int, parsed};
use crate::paths::Platform;
use crate::policy::{ConflictArg, conflict_label};
use crate::records::{UndoStep, handle_undo, latest_lines, lines, lines_of, nothing_to_undo};
use crate::records::{pop_record, record_line, show_history, undo_message};
use crate::records_laws::{event_lines_tell_all, history_goes_back_line_by_line, is_record};
use crate::records_laws::{line_ends_do_not_matter, records_end_in_newlines, undo_leaves_the_rest};
use crate::records_laws::{undo_moves_back_what_is_there, wanted_events_are_shown_in_order};
use crate::report_laws::{line_of_a_task, missing_program_is_named, needed_program_is_looked_for};
use crate::report_laws::{particulars_of_mirroring, particulars_of_sorting_and_cleaning};
use crate::report_laws::{starters_are_chosen_by_number, starters_use_the_answers, states_are_shown};
use crate::report_laws::{table_has_a_line_for_each_task, tasks_are_shown_by_their_command};
use crate::report_laws::{templates_are_listed, whitespace_is_no_answer};
use crate::requirements::{Probe, after_probe, ensure_mirror_requirements, probe_command};
use crate::scripts::{doubled, handle_startup, launch_tray, notification_shows_both_texts};
use crate::scripts::{read_literal, send_notification, show_template, startup_runs_resume};
use crate::scripts::startup_script;
use crate::shell::CommandLine;
use crate::starters::{Starter, choose_starter, starter_command, starter_questions};
use crate::status::{as_times, details_with, short_id, show_status_at, status_row, task_details};
use crate::status::{task_kind, task_state};
use crate::text::{is_space, opt_str, opt_text, texts, trimmed};
use crate::text_laws::{all_blank, cut_text_is_the_beginning, trimming_cuts_off_whitespace};

verus! {

/// The history shows the lines of the record from the last one back: all of
/// them, or the last hundred, so that what is shown is, in reverse, the end of
/// the record.
pub proof fn history_is_shown_backwards(text: &str, r: Vec<String>, i: int)
    requires
        call_ensures(latest_lines, (text,), r),
    ensures
        ({
            let all = lines(text@);
            &&& all.len() <= 100 ==> r@.len() == all.len()
            &&& all.len() >= 100 ==> r@.len() == 100
            &&& 0 <= i < r@.len() ==> r@[i]@ == all[all.len() - 1 - i]
            &&& all.len() <= 100 ==> texts(r@).reverse() == all
            &&& texts(r@).reverse() == all.skip(all.len() - r@.len())
        }),
{
    history_goes_back_line_by_line(lines(text@), i);
    assert(texts(r@).len() == r@.len());
    if 0 <= i < r@.len() {
        assert(texts(r@)[i] == r@[i]@);
    }
}

/// One event more is shown first, and the others as they were, but for the
/// oldest if there were a hundred.
pub proof fn events_are_shown_from_the_latest(
    text: &str,
    more: &str,
    line: Seq<char>,
    r: Vec<String>,
    s: Vec<String>,
)
    requires
        text@.len() == 0 || text@.last() == '\n',
        is_record(line),
        more@ == text@ + line.push('\n'),
        call_ensures(latest_lines, (text,), r),
        call_ensures(latest_lines, (more,), s),
    ensures
        s@.len() > 0,
        s@[0]@ == line,
        forall|i: int| 1 <= i < s@.len() ==> (#[trigger] s@[i])@ == r@[i - 1]@,
        r@.len() < 100 ==> s@.len() == r@.len() + 1,
{
    line_ends_do_not_matter(text@, line);
    let (a, b) = (lines(text@), lines(more@));
    assert(b == a.push(line));
    history_goes_back_line_by_line(a, 0);
    history_goes_back_line_by_line(b, 0);
    assert(texts(s@).len() == s@.len() && texts(r@).len() == r@.len());
    assert(texts(s@)[0] == s@[0]@);
    assert forall|i: int| 1 <= i < s@.len() implies (#[trigger] s@[i])@ == r@[i - 1]@ by {
        history_goes_back_line_by_line(b, i);
        history_goes_back_line_by_line(a, i - 1);
        assert(texts(s@)[i] == s@[i]@);
        assert(texts(r@)[i - 1] == r@[i - 1]@);
    }
}

/// Every event is shown that was asked for, and no other: with one event, there
/// is one line with its time, its level and its message, or none.
pub proof fn one_event_is_shown_if_wanted(
    events: &Vec<Option<HistoryEvent>>,
    task: Option<&str>,
    failed: bool,
    r: Vec<String>,
)
    requires
        events@.len() == 1,
        call_ensures(show_history, (events, task, failed), r),
    ensures
        ({
            let wanted = events@[0] matches Some(event) && (event.level@ == "error"@ || !failed)
                && (task is None || (event.task matches Some(of) && of@ == task->0@));
            &&& r@.len() == 1 <==> wanted
            &&& r@.len() == 0 <==> !wanted
            &&& wanted ==> r@[0]@ == decimal_int(events@[0]->0.ts as int) + seq![' ', '[']
                + events@[0]->0.level@ + seq![']', ' '] + events@[0]->0.message@
        }),
{
    let none = Seq::<Option<HistoryEvent>>::empty();
    assert(events@ =~= none.push(events@[0]));
    wanted_events_are_shown_in_order(none, events@[0], opt_str(task), failed);
    if let Some(event) = events@[0] {
        event_lines_tell_all(event);
    }
    assert(texts(r@).len() == r@.len());
    if r@.len() == 1 {
        assert(texts(r@)[0] == r@[0]@);
    }
}

/// One event more adds its line at the end, if it was asked for, and changes
/// none of the others.
pub proof fn events_are_shown_in_order(
    events: &Vec<Option<HistoryEvent>>,
    more: &Vec<Option<HistoryEvent>>,
    task: Option<&str>,
    failed: bool,
    r: Vec<String>,
    s: Vec<String>,
)
    requires
        more@.len() > 0,
        events@ == more@.drop_last(),
        call_ensures(show_history, (events, task, failed), r),
        call_ensures(show_history, (more, task, failed), s),
    ensures
        r@.len() <= s@.len() <= r@.len() + 1,
        forall|i: int| 0 <= i < r@.len() ==> (#[trigger] s@[i])@ == r@[i]@,
        s@.len() > r@.len() <==> (more@.last() matches Some(event) && (event.level@ == "error"@
            || !failed) && (task is None || (event.task matches Some(of) && of@ == task->0@))),
{
    let last = more@.last();
    assert(more@ =~= events@.push(last));
    wanted_events_are_shown_in_order(events@, last, opt_str(task), failed);
    let (a, b) = (texts(r@), texts(s@));
    assert(a.len() == r@.len() && b.len() == s@.len());
    assert forall|i: int| 0 <= i < r@.len() implies (#[trigger] s@[i])@ == r@[i]@ by {
        assert(b[i] == s@[i]@ && a[i] == r@[i]@);
        assert(b[i] == a[i]);
    }
}

/// Taking the last event out of a record gives its line and leaves the other
/// lines, each with a newline behind it; it can be put back.
pub proof fn last_event_is_taken_out(text: &str, r: Option<(String, String)>)
    requires
        call_ensures(pop_record, (text,), r),
        forall|i: int| 0 <= i < lines(text@).len() ==> is_record(#[trigger] lines(text@)[i]),
    ensures
        r is None <==> lines(text@).len() == 0,
        r matches Some((line, rest)) ==> {
            &&& line@ == lines(text@).last()
            &&& lines(rest@) == lines(text@).drop_last()
            &&& rest@.len() > 0 ==> rest@.last() == '\n'
            &&& lines(rest@ + line@.push('\n')) == lines(text@)
        },
{
    let all = lines(text@);
    if let Some((line, rest)) = r {
        undo_leaves_the_rest(text@);
        let left = all.drop_last();
        if left.len() > 0 {
            assert(left =~= left.drop_last().push(left.last()));
            records_end_in_newlines(left.drop_last(), left.last());
        } else {
            assert(left =~= seq![]);
            records_end_in_newlines(left, line@);
        }
        assert(is_record(all[all.len() - 1]));
        line_ends_do_not_matter(rest@, line@);
        assert(left.push(all.last()) =~= all);
    }
}

/// What is written to add an event is its line and a newline, and the lines of a
/// text are what stands before, between and behind its newlines.
pub proof fn events_are_added_as_lines(
    text: &str,
    more: &str,
    line: &str,
    r: String,
    s: Vec<String>,
    t: Vec<String>,
)
    requires
        text@.len() == 0 || text@.last() == '\n',
        is_record(line@),
        call_ensures(record_line, (line,), r),
        more@ == text@ + r@,
        call_ensures(lines_of, (text,), s),
        call_ensures(lines_of, (more,), t),
    ensures
        r@ == line@.push('\n'),
        t@.len() == s@.len() + 1,
        t@.last()@ == line@,
        forall|i: int| 0 <= i < s@.len() ==> (#[trigger] t@[i])@ == s@[i]@,
{
    records_end_in_newlines(seq![], line@);
    line_ends_do_not_matter(text@, line@);
    let (a, b) = (texts(s@), texts(t@));
    assert(b == a.push(line@));
    assert(a.len() == s@.len() && b.len() == t@.len());
    assert(b.last() == t@.last()@);
    assert forall|i: int| 0 <= i < s@.len() implies (#[trigger] t@[i])@ == s@[i]@ by {
        assert(b[i] == t@[i]@ && a[i] == s@[i]@);
    }
}

/// A move is taken back if and only if the file is there; either way it is said
/// what came of it, and the record drops the event at the end.
pub proof fn moves_are_taken_back(
    src: &str,
    dest: &str,
    dest_exists: bool,
    r: Vec<UndoStep>,
    said: String,
    nothing: &'static str,
)
    requires
        call_ensures(handle_undo, (src, dest, dest_exists), r),
        call_ensures(undo_message, (src, dest, dest_exists), said),
        call_ensures(nothing_to_undo, (), nothing),
    ensures
        ({
            let n = r@.len() as int;
            &&& dest_exists <==> n == 4
            &&& !dest_exists <==> n == 2
            &&& dest_exists ==> r@[0] is MakeParent && r@[1] is MoveBack
            &&& r@[n - 2] matches UndoStep::Say(line) && line@ == said@
            &&& r@[n - 1] is DropRecord
        }),
        dest_exists ==> said@ == "Moved "@ + dest@ + " back to "@ + src@,
        !dest_exists ==> said@ == "Cannot undo; "@ + dest@ + " no longer exists."@,
        nothing@ == "Nothing to undo."@,
{
    undo_moves_back_what_is_there(src@, dest@, dest_exists);
    let steps = r@.map_values(|s: UndoStep| s@);
    let n = r@.len() as int;
    assert(steps.len() == n);
    assert(steps[n - 1] == r@[n - 1]@ && steps[n - 2] == r@[n - 2]@);
    assert(steps[0] == r@[0]@);
    if dest_exists {
        assert(steps[1] == r@[1]@);
    }
}

/// The pages of a log hold its lines in order, 25 to a page: line `i` stands at
/// place `i % 25` of page `i / 25`, and there are no more pages than needed.
pub proof fn logs_are_paged(text: &str, r: Vec<Vec<String>>, i: int)
    requires
        call_ensures(log_pages, (text,), r),
    ensures
        0 <= i < lines(text@).len() ==> 0 <= i / 25 < r@.len() && i % 25 < r@[i / 25]@.len()
            && r@[i / 25]@[i % 25]@ == lines(text@)[i],
        0 <= i < r@.len() ==> 0 < r@[i]@.len() <= 25,
        0 <= i < r@.len() - 1 ==> r@[i]@.len() == 25,
        lines(text@).len() <= 25 * r@.len(),
        lines(text@).len() > 25 * (r@.len() - 1),
{
    let all = lines(text@);
    pages_hold_all_lines(all);
    pages_are_as_many_as_needed(all.len(), 0);
    if 0 <= i < r@.len() {
        assert(texts(r@[i]@) == page(all, i));
        assert(texts(r@[i]@).len() == r@[i]@.len());
    }
    if 0 <= i < all.len() {
        let k = i / 25;
        assert(all[i] == page(all, k)[i % 25]);
        assert(texts(r@[k]@) == page(all, k));
        assert(texts(r@[k]@).len() == r@[k]@.len());
        assert(texts(r@[k]@)[i % 25] == r@[k]@[i % 25]@);
    }
}

/// Between two pages it is asked whether to go on, and at no other time; the log
/// ends behind its last page or where the answer is a single `q`.
pub proof fn logs_are_shown_by_steps(
    pages: usize,
    shown: usize,
    answer: &str,
    asked: LogStep,
    told: LogStep,
    stops: bool,
    prompt: &'static str,
    end: &'static str,
)
    requires
        call_ensures(show_logs, (pages, shown, None), asked),
        call_ensures(show_logs, (pages, shown, Some(answer)), told),
        call_ensures(quits, (answer,), stops),
        call_ensures(more_prompt, (), prompt),
        call_ensures(closing_line, (), end),
    ensures
        asked == LogStep::Ask <==> 0 < shown < pages,
        asked == LogStep::End <==> shown >= pages,
        asked == LogStep::Show(shown) <==> shown == 0 && pages > 0,
        0 < shown < pages ==> (told == LogStep::End <==> stops),
        0 < shown < pages ==> (told == LogStep::Show(shown) <==> !stops),
        answer@ == seq!['q'] || answer@ == seq!['Q'] ==> stops,
        answer@.len() == 0 ==> !stops,
        prompt@ == "--More-- (Enter: next, q: quit) "@,
        end@ == "(END)"@,
{
    let none = Seq::<char>::empty();
    if answer@ == seq!['q'] || answer@ == seq!['Q'] || answer@.len() == 0 {
        a_single_q_stops(none, answer@, none);
        assert(none + answer@ + none =~= answer@);
        if answer@.len() == 0 {
            assert(answer@ != seq!['q'] && answer@ != seq!['Q']);
        }
    }
}

/// An answer stops the log if and only if it is a single `q` in either case,
/// with or without whitespace around it.
pub proof fn only_a_q_stops(
    before: Seq<char>,
    answer: Seq<char>,
    behind: Seq<char>,
    input: &str,
    r: bool,
)
    requires
        all_blank(before),
        all_blank(behind),
        answer.len() > 0 ==> !is_space(answer[0]) && !is_space(answer.last()),
        input@ == before + answer + behind,
        call_ensures(quits, (input,), r),
    ensures
        r <==> answer == seq!['q'] || answer == seq!['Q'],
{
    a_single_q_stops(before, answer, behind);
}

/// A target is taken for the number of a process if and only if it is a number
/// of 32 bits; a log that is not there is named with its process.
pub proof fn logs_are_found_by_process(
    target: &str,
    pid: u32,
    path: &str,
    r: Option<u32>,
    s: String,
)
    requires
        call_ensures(parse_pid, (target,), r),
        call_ensures(no_logs, (pid, path), s),
    ensures
        r matches Some(n) ==> parsed(target@, 4_294_967_295) == Ok::<nat, NumberError>(n as nat),
        r is None <==> parsed(target@, 4_294_967_295) is Err,
        s@ == "No logs found for PID "@ + decimal(pid as nat) + " at "@ + path@,
{
}

/// The table has a head and a line for each task in order, or a remark; each
/// line shows the task at its time.
pub proof fn tables_show_all_tasks(
    tasks: &Vec<DaemonTask>,
    times: &Vec<i64>,
    running: &Vec<bool>,
    r: Vec<String>,
    row: String,
    i: int,
)
    requires
        call_ensures(show_status_at, (tasks, times, running), r),
        tasks@.len() == times@.len() == running@.len(),
        0 <= i < tasks@.len() ==> call_ensures(
            status_row,
            (&tasks@[i], times@[i], running@[i]),
            row,
        ),
    ensures
        tasks@.len() == 0 ==> r@.len() == 1 && r@[0]@ == "No daemons found."@,
        tasks@.len() > 0 ==> r@.len() == tasks@.len() + 1,
        0 <= i < tasks@.len() ==> r@[i + 1]@ == row@,
{
    let at = as_times(times@);
    table_has_a_line_for_each_task(tasks@, at, running@, i);
    let t = texts(r@);
    assert(t.len() == r@.len());
    if tasks@.len() == 0 {
        assert(t[0] == r@[0]@);
    }
    if 0 <= i < tasks@.len() {
        assert(t[i + 1] == r@[i + 1]@);
        assert(at[i] == times@[i] as int);
    }
}

/// The line of a task shows its identifier, its name, its process, its state,
/// its kind and its particulars in their columns.
pub proof fn lines_show_tasks(
    task: &DaemonTask,
    now: i64,
    running: bool,
    name: Seq<char>,
    row: String,
    state: &'static str,
    kind: &'static str,
    shown: String,
)
    requires
        name == match task.name {
            Some(given) => given@,
            None => "-"@,
        },
        name.len() <= 16,
        decimal(task.pid as nat).len() <= 8,
        call_ensures(status_row, (task, now, running), row),
        call_ensures(task_state, (task, now, running), state),
        call_ensures(task_kind, (&task.task,), kind),
        call_ensures(task_details, (&task.task,), shown),
    ensures
        ({
            let line = row@;
            let pid = decimal(task.pid as nat);
            let paused = task.paused_until matches Some(until) && now < until;
            &&& task.id@.len() >= 18 ==> line.subrange(0, 18) == task.id@.take(18)
            &&& task.id@.len() <= 18 ==> line.subrange(0, task.id@.len() as int) == task.id@
            &&& line.subrange(19, 19 + name.len() as int) == name
            &&& line.subrange(36, 36 + pid.len() as int) == pid
            &&& line.subrange(45, 45 + state@.len() as int) == state@
            &&& line.subrange(56, 56 + kind@.len() as int) == kind@
            &&& line.skip(67) == shown@
            &&& state@ == "PAUSED"@ <==> paused
            &&& state@ == "DISABLED"@ <==> !paused && !task.enabled
            &&& state@ == "RUNNING"@ <==> !paused && task.enabled && running
            &&& state@ == "STOPPED"@ <==> !paused && task.enabled && !running
            &&& task.task is Unzip <==> kind@ == "unzip"@
            &&& task.task is Mirror <==> kind@ == "mirror"@
            &&& task.task is Sort <==> kind@ == "sort"@
            &&& task.task is Clean <==> kind@ == "clean"@
        }),
{
    line_of_a_task(*task, now as int, running, name);
    states_are_shown(*task, now as int, running);
    tasks_are_shown_by_their_command(task.task);
}

/// The particulars of a task are shown for its kind, and an identifier is shown
/// by its first 18 characters.
pub proof fn particulars_are_shown(
    task: TaskType,
    move_to: &str,
    remote: &str,
    id: &str,
    r: String,
    s: String,
    short: String,
)
    requires
        call_ensures(task_details, (&task,), r),
        call_ensures(details_with, (&task, move_to, remote), s),
        call_ensures(short_id, (id,), short),
    ensures
        task matches TaskType::Unzip { path, delete, conflict, stable_secs } ==> r@ == s@ && r@
            == path@ + " delete="@ + (if delete {
            "true"@
        } else {
            "false"@
        }) + " conflict="@ + conflict_label(conflict) + " stable="@ + decimal(stable_secs as nat)
            + "s"@,
        task matches TaskType::Sort { path, rules, .. } ==> r@ == s@ && r@ == path@ + " rules="@
            + decimal(rules@.len()),
        task matches TaskType::Mirror { src, dest, remote: machine, use_rsync, conflict, .. } ==> {
            let label = conflict_label(conflict);
            &&& r@ == s@
            &&& machine is None ==> r@ == src@ + " -> "@ + dest@ + " ("@ + label + ")"@
            &&& machine is Some && use_rsync ==> r@ == src@ + " -> "@ + machine->0@ + ":"@ + dest@
                + " ("@ + "rsync"@ + ", "@ + label + ")"@
            &&& machine is Some && !use_rsync ==> r@ == src@ + " -> "@ + machine->0@ + ":"@ + dest@
                + " ("@ + "scp"@ + ", "@ + label + ")"@
        },
        task matches TaskType::Clean { path, older_than_days, .. } ==> s@ == path@ + " older="@
            + decimal(older_than_days as nat) + "d move_to="@ + move_to@ + " remote="@ + remote@,
        short@.is_prefix_of(id@),
        id@.len() >= 18 ==> short@.len() == 18,
        id@.len() <= 18 ==> short@ == id@,
{
    particulars_of_mirroring(task);
    particulars_of_sorting_and_cleaning(task);
    cut_text_is_the_beginning(id@, 18);
}

/// Before a folder is mirrored, the program that will copy it is looked for by
/// running it; what is found leads on to what it needs, and what is not found is
/// named.
pub proof fn programs_are_looked_for(
    platform: Platform,
    is_remote: bool,
    use_rsync: bool,
    found: bool,
    first: Probe,
    next: Result<Option<Probe>, &'static str>,
    command: (CommandLine, bool),
)
    requires
        call_ensures(ensure_mirror_requirements, (platform, is_remote, use_rsync), first),
        call_ensures(after_probe, (platform, first, found), next),
        call_ensures(probe_command, (first,), command),
    ensures
        first == Probe::Scp <==> is_remote && !use_rsync,
        first == Probe::Rsync <==> !(is_remote && !use_rsync) && platform == Platform::Unix,
        first == Probe::Wsl <==> !(is_remote && !use_rsync) && platform == Platform::Windows,
        next is Err <==> !found,
        next matches Ok(more) ==> (more == Some(Probe::RsyncInWsl) <==> first == Probe::Wsl) && (more
            is None <==> first != Probe::Wsl),
        next matches Err(e) ==> (first == Probe::Scp ==> "scp is not "@.is_prefix_of(e@)) && (first
            == Probe::Rsync ==> "rsync is not installed."@.is_prefix_of(e@)) && (first == Probe::Wsl
            ==> "WSL is not enabled."@.is_prefix_of(e@)),
        command.0.words().len() == 2,
        command.0.words()[0] == match first {
            Probe::Scp => "scp"@,
            Probe::Rsync => "rsync"@,
            _ => "wsl"@,
        },
        command.0.words()[1] == match first {
            Probe::Scp => "-V"@,
            Probe::Rsync => "--version"@,
            _ => "--status"@,
        },
        !command.1,
{
    needed_program_is_looked_for(platform, is_remote, use_rsync);
    missing_program_is_named(platform);
}

/// Inside the Linux subsystem `rsync` is looked for by a command that has to
/// succeed; nothing is looked for behind it.
pub proof fn rsync_is_looked_for_in_the_subsystem(
    platform: Platform,
    found: bool,
    next: Result<Option<Probe>, &'static str>,
    command: (CommandLine, bool),
)
    requires
        call_ensures(after_probe, (platform, Probe::RsyncInWsl, found), next),
        call_ensures(probe_command, (Probe::RsyncInWsl,), command),
    ensures
        found <==> next matches Ok(None),
        next matches Err(e) ==> "rsync is not installed in WSL."@.is_prefix_of(e@),
        command.1,
        command.0.words().len() == 4,
        command.0.words()[0] == "wsl"@,
        command.0.words()[1] == "sh"@,
        command.0.words()[2] == "-lc"@,
        command.0.words()[3] == "command -v rsync >/dev/null 2>&1"@,
{
    needed_program_is_looked_for(platform, false, false);
    missing_program_is_named(platform);
}

/// A notification is shown on Windows only, by a script that shows the text and
/// the title that are given, whatever quotes they hold.
pub proof fn notifications_show_their_texts(
    platform: Platform,
    title: &str,
    body: &str,
    r: Option<CommandLine>,
)
    requires
        call_ensures(send_notification, (platform, title, body), r),
    ensures
        r is Some <==> platform == Platform::Windows,
        r matches Some(line) ==> {
            let words = line.words();
            let head = "$wshell=New-Object -ComObject Wscript.Shell;$wshell.Popup('"@;
            let behind = doubled(title@, '\'') + "',64)|Out-Null"@;
            &&& words.len() == 6
            &&& words[0] == "powershell.exe"@
            &&& words[1] == "-NoProfile"@
            &&& words[2] == "-WindowStyle"@ && words[3] == "Hidden"@
            &&& words[4] == "-Command"@
            &&& head.is_prefix_of(words[5])
            &&& read_literal(words[5].skip(head.len() as int), '\'') == Some(
                (body@, ",3,'"@ + behind),
            )
            &&& read_literal(behind, '\'') == Some((title@, ",64)|Out-Null"@))
        },
{
    notification_shows_both_texts(title@, body@);
}

/// The script at login runs the program with the word `resume`, whatever quotes
/// its path holds; the system is told to run the script by its path, and so is
/// the shell of the tray.
pub proof fn scripts_run_what_they_are_given(
    exe: &str,
    path: &str,
    r: String,
    s: String,
    line: CommandLine,
)
    requires
        call_ensures(startup_script, (exe,), r),
        call_ensures(handle_startup, (path,), s),
        call_ensures(launch_tray, (path,), line),
    ensures
        ({
            let head = "Set shell = CreateObject(\"WScript.Shell\")\r\nshell.Run \""@;
            &&& head.is_prefix_of(r@)
            &&& read_literal(r@.skip(head.len() as int), '"') == Some(
                ("cmd.exe /d /c \""@ + exe@ + "\" resume"@, ", 0, False\r\n"@),
            )
        }),
        s@ == "wscript.exe //B //Nologo \""@ + path@ + "\""@,
        line.words().len() == 8,
        line.words()[0] == "powershell.exe"@,
        line.words()[1] == "-NoProfile"@,
        line.words()[2] == "-ExecutionPolicy"@ && line.words()[3] == "Bypass"@,
        line.words()[4] == "-WindowStyle"@ && line.words()[5] == "Hidden"@,
        line.words()[6] == "-File"@,
        line.words()[7] == path@,
{
    startup_runs_resume(exe@);
}

/// A template is shown by one line, and any other name, or none, by the names of
/// all templates.
pub proof fn templates_are_shown(name: &str, r: Vec<String>, all: Vec<String>)
    requires
        call_ensures(show_template, (Some(name),), r),
        call_ensures(show_template, (None,), all),
    ensures
        all@.len() == 4,
        texts(all@) == seq![
            "downloads-cleanup"@,
            "zip-extractor"@,
            "photos-backup"@,
            "school-folder-sort"@,
        ],
        texts(all@).contains(name@) <==> r@.len() == 1,
        !texts(all@).contains(name@) ==> texts(r@) == texts(all@),
{
    templates_are_listed(name@);
    assert(texts(r@).len() == r@.len() && texts(all@).len() == all@.len());
}

/// A common task is chosen by its number and created from the answers: it is of
/// the kind that was chosen, about the folder that was answered first, under the
/// name that was answered last. It is not created if an answer is missing.
pub proof fn common_tasks_are_created_from_answers(
    before: Seq<char>,
    answer: Seq<char>,
    behind: Seq<char>,
    input: &str,
    chosen: Option<Starter>,
    asked: Vec<String>,
    answers: &Vec<String>,
    r: Option<Commands>,
    i: int,
)
    requires
        all_blank(before),
        all_blank(behind),
        answer.len() > 0 ==> !is_space(answer[0]) && !is_space(answer.last()),
        input@ == before + answer + behind,
        call_ensures(choose_starter, (input,), chosen),
        chosen is Some,
        call_ensures(starter_questions, (chosen->0,), asked),
        answers@.len() == asked@.len(),
        call_ensures(starter_command, (chosen->0, answers), r),
    ensures
        chosen == Some(Starter::Unzip) <==> answer == seq!['1'],
        chosen == Some(Starter::Sort) <==> answer == seq!['2'],
        chosen == Some(Starter::Clean) <==> answer == seq!['3'],
        0 <= i < answers@.len() && all_blank(answers@[i]@) ==> r is None,
        r is None ==> exists|j: int| 0 <= j < answers@.len() && all_blank(#[trigger] answers@[j]@),
        r matches Some(Commands::Unzip { path, name, on_conflict, no_delete, .. }) ==> answer
            == seq!['1'] && path@ == trimmed(answers@[0]@) && opt_text(name) == Some(
            trimmed(answers@.last()@),
        ) && on_conflict == ConflictArg::Rename && !no_delete,
        r matches Some(Commands::Sort { path, rules, name, on_conflict, dry_run, .. }) ==> answer
            == seq!['2'] && path@ == trimmed(answers@[0]@) && rules@.len() == 1 && rules@[0]@
            == trimmed(answers@[1]@) && opt_text(name) == Some(trimmed(answers@.last()@))
            && on_conflict == ConflictArg::Rename && !dry_run,
        r matches Some(Commands::Clean { path, older_than, move_to, scp, name, dry_run, .. })
            ==> answer == seq!['3'] && path@ == trimmed(answers@[0]@) && older_than@ == trimmed(
            answers@[1]@,
        ) && opt_text(move_to) == Some(trimmed(answers@[2]@)) && scp is None && opt_text(name)
            == Some(trimmed(answers@.last()@)) && !dry_run,
        r matches Some(command) ==> command is Unzip || command is Sort || command is Clean,
{
    starters_are_chosen_by_number(before, answer, behind);
    let given = texts(answers@);
    assert(given.len() == answers@.len());
    assert(texts(asked@).len() == asked@.len());
    if 0 <= i < answers@.len() && all_blank(answers@[i]@) {
        assert(given[i] == answers@[i]@);
        whitespace_is_no_answer(given, i);
    }
    if r is None {
        let j = choose|j: int| 0 <= j < given.len() && trimmed(#[trigger] given[j]).len() == 0;
        assert(given[j] == answers@[j]@);
        trimming_cuts_off_whitespace(given[j]);
        let (before, behind) = choose|before: Seq<char>, behind: Seq<char>|
            all_blank(before) && all_blank(behind) && #[trigger] (before + trimmed(given[j])
                + behind) == given[j];
        assert forall|k: int| 0 <= k < given[j].len() implies is_space(#[trigger] given[j][k]) by {
            if k < before.len() {
                assert(is_space(before[k]));
            } else {
                assert(is_space(behind[k - before.len()]));
            }
        }
    }
    if let Some(command) = r {
        starters_use_the_answers(chosen->0, given, command);
        assert(given[0] == answers@[0]@ && given.last() == answers@.last()@);
        if answers@.len() > 2 {
            assert(given[1] == answers@[1]@ && given[2] == answers@[2]@);
        }
        if let Commands::Sort { rules, .. } = command {
            assert(texts(rules@).len() == rules@.len());
            assert(texts(rules@)[0] == rules@[0]@);
        }
    }
}

/// What is asked is what the answers are used for: the folder first and the name
/// last, and between them the rule, or the age and where the files go.
pub proof fn questions_ask_for_what_is_used(
    unzip: Vec<String>,
    sort: Vec<String>,
    clean: Vec<String>,
)
    requires
        call_ensures(starter_questions, (Starter::Unzip,), unzip),
        call_ensures(starter_questions, (Starter::Sort,), sort),
        call_ensures(starter_questions, (Starter::Clean,), clean),
    ensures
        unzip@.len() == 2,
        sort@.len() == 3,
        clean@.len() == 4,
        unzip@[0]@ == "Folder to watch: "@,
        sort@[0]@ == "Folder to sort: "@,
        clean@[0]@ == "Folder to clean: "@,
        sort@[1]@ == "Rule (pattern=destination): "@,
        clean@[1]@ == "Age of the files (such as 30d): "@,
        clean@[2]@ == "Folder to move them to: "@,
        unzip@.last()@ == "Name of the task: "@,
        sort@.last()@ == "Name of the task: "@,
        clean@.last()@ == "Name of the task: "@,
{
    let (a, b, c) = (texts(unzip@), texts(sort@), texts(clean@));
    assert(a.len() == unzip@.len() && b.len() == sort@.len() && c.len() == clean@.len());
    assert(a[0] == unzip@[0]@ && a[1] == unzip@[1]@);
    assert(b[0] == sort@[0]@ && b[1] == sort@[1]@ && b[2] == sort@[2]@);
    assert(c[0] == clean@[0]@ && c[1] == clean@[1]@ && c[2] == clean@[2]@ && c[3] == clean@[3]@);
}

} // verus!
