//! The table of tasks.

use vstd::prelude::*;
use vstd::string::*;

use crate::clock::is_time;
use crate::clock::now;
use crate::daemon::{DaemonTask, TaskType};
use crate::daemon::is_paused_at;
use crate::daemon::rests;
use crate::number::decimal;
use crate::number::to_decimal;
use crate::policy::conflict_label;
use crate::policy::conflict_report;
use crate::text::{bool_text, debug_text, first_chars, opt_text, padded, texts};
use crate::text::{bool_to_text, debug_of, pad_right, push_text, take_chars};

verus! {

/// The first 18 characters of an identifier.
pub fn short_id(id: &str) -> (r: String)
    ensures
        r@ == first_chars(id@, 18),
{
    take_chars(id, 18)
}

/// The word for what a task does.
pub open spec fn kind_word(task: TaskType) -> Seq<char> {
    match task {
        TaskType::Unzip { .. } => "unzip"@,
        TaskType::Mirror { .. } => "mirror"@,
        TaskType::Sort { .. } => "sort"@,
        TaskType::Clean { .. } => "clean"@,
    }
}

/// The word for what a task does.
pub fn task_kind(task: &TaskType) -> (r: &'static str)
    ensures
        r@ == kind_word(*task),
{
    match task {
        TaskType::Unzip { .. } => "unzip",
        TaskType::Mirror { .. } => "mirror",
        TaskType::Sort { .. } => "sort",
        TaskType::Clean { .. } => "clean",
    }
}

/// The particulars of a task, when `move_to` and `remote` are what is shown of
/// the two options of a task that cleans.
pub open spec fn details_given(task: TaskType, move_to: Seq<char>, remote: Seq<char>) -> Seq<char> {
    match task {
        TaskType::Unzip { path, delete, conflict, stable_secs } => path@ + " delete="@ + bool_text(
            delete,
        ) + " conflict="@ + conflict_label(conflict) + " stable="@ + decimal(stable_secs as nat)
            + "s"@,
        TaskType::Mirror { src, dest, remote, use_rsync, conflict, .. } => match remote {
            Some(remote) => src@ + " -> "@ + remote@ + ":"@ + dest@ + " ("@ + (if use_rsync {
                "rsync"@
            } else {
                "scp"@
            }) + ", "@ + conflict_label(conflict) + ")"@,
            None => src@ + " -> "@ + dest@ + " ("@ + conflict_label(conflict) + ")"@,
        },
        TaskType::Sort { path, rules, .. } => path@ + " rules="@ + decimal(rules@.len()),
        TaskType::Clean { path, older_than_days, .. } => path@ + " older="@ + decimal(
            older_than_days as nat,
        ) + "d move_to="@ + move_to + " remote="@ + remote,
    }
}

/// The particulars of a task, when `move_to` and `remote` are what is shown of
/// the two options of a task that cleans.
pub fn details_with(task: &TaskType, move_to: &str, remote: &str) -> (r: String)
    ensures
        r@ == details_given(*task, move_to@, remote@),
{
    match task {
        TaskType::Unzip { path, delete, conflict, stable_secs } => {
            let mut out = path.as_str().to_owned();
            out.append(" delete=");
            out.append(bool_to_text(*delete));
            out.append(" conflict=");
            out.append(conflict_report(*conflict));
            out.append(" stable=");
            out.append(to_decimal(*stable_secs as u128).as_str());
            out.append("s");
            out
        },
        TaskType::Mirror { src, dest, remote, use_rsync, conflict, .. } => {
            let mut out = src.as_str().to_owned();
            out.append(" -> ");
            match remote {
                Some(remote) => {
                    out.append(remote.as_str());
                    out.append(":");
                    out.append(dest.as_str());
                    out.append(" (");
                    out.append(
                        if *use_rsync {
                            "rsync"
                        } else {
                            "scp"
                        },
                    );
                    out.append(", ");
                },
                None => {
                    out.append(dest.as_str());
                    out.append(" (");
                },
            }
            out.append(conflict_report(*conflict));
            out.append(")");
            out
        },
        TaskType::Sort { path, rules, .. } => {
            let mut out = path.as_str().to_owned();
            out.append(" rules=");
            out.append(to_decimal(rules.len() as u128).as_str());
            out
        },
        TaskType::Clean { path, older_than_days, .. } => {
            let mut out = path.as_str().to_owned();
            out.append(" older=");
            out.append(to_decimal(*older_than_days as u128).as_str());
            out.append("d move_to=");
            out.append(move_to);
            out.append(" remote=");
            out.append(remote);
            out
        },
    }
}

/// What is shown of an option.
pub open spec fn shown_option(value: Option<Seq<char>>) -> Seq<char> {
    match value {
        Some(v) => "Some("@ + debug_text(v) + ")"@,
        None => "None"@,
    }
}

fn show_option(value: &Option<String>) -> (r: String)
    ensures
        r@ == shown_option(opt_text(*value)),
{
    match value {
        Some(v) => {
            let mut out = "Some(".to_owned();
            out.append(debug_of(v.as_str()).as_str());
            out.append(")");
            out
        },
        None => "None".to_owned(),
    }
}

/// The particulars of a task.
pub open spec fn details(task: TaskType) -> Seq<char> {
    match task {
        TaskType::Clean { move_to, remote, .. } => details_given(
            task,
            shown_option(opt_text(move_to)),
            shown_option(opt_text(remote)),
        ),
        _ => details_given(task, seq![], seq![]),
    }
}

/// The particulars of a task.
pub fn task_details(task: &TaskType) -> (r: String)
    ensures
        r@ == details(*task),
{
    match task {
        TaskType::Clean { move_to, remote, .. } => {
            details_with(task, show_option(move_to).as_str(), show_option(remote).as_str())
        },
        _ => details_with(task, "", ""),
    }
}

/// The state that a task is shown in.
pub open spec fn state_word(task: DaemonTask, now: int, running: bool) -> Seq<char> {
    if rests(task, now) {
        "PAUSED"@
    } else if !task.enabled {
        "DISABLED"@
    } else if running {
        "RUNNING"@
    } else {
        "STOPPED"@
    }
}

/// The state that a task is shown in at the time `now`; `running` says whether
/// its process is there.
pub fn task_state(task: &DaemonTask, now: i64, running: bool) -> (r: &'static str)
    ensures
        r@ == state_word(*task, now as int, running),
{
    if is_paused_at(task, now) {
        "PAUSED"
    } else if !task.enabled {
        "DISABLED"
    } else if running {
        "RUNNING"
    } else {
        "STOPPED"
    }
}

/// A line of the table: columns of 18, 16, 8, 10 and 10 characters, and a last
/// one of any length.
pub open spec fn row(
    id: Seq<char>,
    name: Seq<char>,
    pid: Seq<char>,
    state: Seq<char>,
    kind: Seq<char>,
    rest: Seq<char>,
) -> Seq<char> {
    padded(id, 18) + " "@ + padded(name, 16) + " "@ + padded(pid, 8) + " "@ + padded(state, 10)
        + " "@ + padded(kind, 10) + " "@ + rest
}

fn row_text(id: &str, name: &str, pid: &str, state: &str, kind: &str, rest: &str) -> (r: String)
    ensures
        r@ == row(id@, name@, pid@, state@, kind@, rest@),
{
    let mut out = pad_right(id, 18);
    out.append(" ");
    out.append(pad_right(name, 16).as_str());
    out.append(" ");
    out.append(pad_right(pid, 8).as_str());
    out.append(" ");
    out.append(pad_right(state, 10).as_str());
    out.append(" ");
    out.append(pad_right(kind, 10).as_str());
    out.append(" ");
    out.append(rest);
    out
}

/// The head of the table.
pub fn status_header() -> (r: String)
    ensures
        r@ == row("ID"@, "NAME"@, "PID"@, "STATE"@, "TYPE"@, "DETAILS"@),
{
    row_text("ID", "NAME", "PID", "STATE", "TYPE", "DETAILS")
}

/// The line of the table for a task.
pub open spec fn task_row(task: DaemonTask, now: int, running: bool) -> Seq<char> {
    row(
        first_chars(task.id@, 18),
        match task.name {
            Some(name) => name@,
            None => "-"@,
        },
        decimal(task.pid as nat),
        state_word(task, now, running),
        kind_word(task.task),
        details(task.task),
    )
}

/// The line of the table for a task.
pub fn status_row(task: &DaemonTask, now: i64, running: bool) -> (r: String)
    ensures
        r@ == task_row(*task, now as int, running),
{
    let name = match &task.name {
        Some(name) => name.as_str(),
        None => "-",
    };
    row_text(
        short_id(task.id.as_str()).as_str(),
        name,
        to_decimal(task.pid as u128).as_str(),
        task_state(task, now, running),
        task_kind(&task.task),
        task_details(&task.task).as_str(),
    )
}

/// The lines that show the tasks: a head and a line for each task, or a remark
/// if there is none. `times` holds the time at which each task is looked at.
pub open spec fn status_lines(tasks: Seq<DaemonTask>, times: Seq<int>, running: Seq<bool>) -> Seq<
    Seq<char>,
> {
    if tasks.len() == 0 {
        seq!["No daemons found."@]
    } else {
        seq![row("ID"@, "NAME"@, "PID"@, "STATE"@, "TYPE"@, "DETAILS"@)] + Seq::new(
            tasks.len(),
            |i: int| task_row(tasks[i], times[i], running[i]),
        )
    }
}

/// The times as integers.
pub open spec fn as_times(times: Seq<i64>) -> Seq<int> {
    times.map_values(|t: i64| t as int)
}

/// The lines that show the tasks, each at its time; `running` says of each
/// whether its process is there.
pub fn show_status_at(tasks: &Vec<DaemonTask>, times: &Vec<i64>, running: &Vec<bool>) -> (r: Vec<
    String,
>)
    requires
        tasks@.len() == times@.len(),
        tasks@.len() == running@.len(),
    ensures
        texts(r@) == status_lines(tasks@, as_times(times@), running@),
{
    let mut out: Vec<String> = Vec::new();
    if tasks.is_empty() {
        push_text(&mut out, "No daemons found.");
        assert(texts(out@) =~= status_lines(tasks@, as_times(times@), running@));
        return out;
    }
    push_text(&mut out, status_header().as_str());
    let ghost head = row("ID"@, "NAME"@, "PID"@, "STATE"@, "TYPE"@, "DETAILS"@);
    let ghost at = as_times(times@);
    let mut i: usize = 0;
    while i < tasks.len()
        invariant
            i <= tasks@.len() == running@.len() == times@.len(),
            at == as_times(times@),
            head == row("ID"@, "NAME"@, "PID"@, "STATE"@, "TYPE"@, "DETAILS"@),
            texts(out@) =~= seq![head] + Seq::new(
                i as nat,
                |j: int| task_row(tasks@[j], at[j], running@[j]),
            ),
        decreases tasks.len() - i,
    {
        push_text(&mut out, status_row(&tasks[i], times[i], running[i]).as_str());
        i = i + 1;
    }
    out
}

/// The lines that show the tasks now; `running` says of each whether its
/// process is there.
pub fn show_status(tasks: &Vec<DaemonTask>, running: &Vec<bool>) -> (r: Vec<String>)
    requires
        tasks@.len() == running@.len(),
    ensures
        exists|times: Seq<int>|
            times.len() == tasks@.len() && (forall|i: int|
                0 <= i < times.len() ==> is_time(#[trigger] times[i])) && texts(r@) == #[trigger] status_lines(
                tasks@,
                times,
                running@,
            ),
{
    let mut times: Vec<i64> = Vec::new();
    let mut i: usize = 0;
    while i < tasks.len()
        invariant
            i <= tasks@.len(),
            times@.len() == i,
            forall|j: int| 0 <= j < i ==> is_time(#[trigger] times@[j] as int),
        decreases tasks.len() - i,
    {
        times.push(now());
        i = i + 1;
    }
    let r = show_status_at(tasks, &times, running);
    assert(as_times(times@).len() == tasks@.len());
    assert(texts(r@) == status_lines(tasks@, as_times(times@), running@));
    r
}

} // verus!
