//! Who is meant in the list of tasks, who leaves it and who stays, and what is
//! wrong with it.

use vstd::prelude::*;
use vstd::string::*;
use vstd::utf8::*;

use crate::control::{is_all, nobody, pids, restarts, title};
use crate::daemon::{DaemonTask, StateManager, first_meant, first_meant_is_first, has_id_filled};
use crate::daemon::{is_meant, rests, state_dir, stays_beside, task_id};
use crate::daemon_laws::lemma_filter_members;
use crate::doctor::{all_issues, closing, issues, worth_keeping};
use crate::number::{NumberError, decimal, parse_undoes_decimal, parsed};
use crate::paths::{Platform, joined, text_is_joined_as_text};
use crate::status::details;
use crate::text::{lower_char, lowered};

verus! {

/// A task is meant by its identifier, by its name and by the number of its
/// process, and by nothing else.
pub proof fn tasks_are_meant_by_what_they_are_called(t: DaemonTask, target: Seq<char>)
    ensures
        is_meant(t, t.id@),
        t.name matches Some(name) ==> is_meant(t, name@),
        is_meant(t, decimal(t.pid as nat)),
        is_meant(t, target) ==> target == t.id@ || (t.name matches Some(name) && target == name@)
            || parsed(target, u32::MAX as nat) == Ok::<nat, NumberError>(t.pid as nat),
{
    parse_undoes_decimal(t.pid as nat, u32::MAX as nat);
}

/// The first task that is meant is meant, and none before it is; if any is
/// meant, there is a first.
pub proof fn first_of_those_who_are_meant(tasks: Seq<DaemonTask>, target: Seq<char>, k: int)
    requires
        0 <= k < tasks.len(),
        is_meant(tasks[k], target),
    ensures
        first_meant(tasks, target) matches Some(i) && 0 <= i <= k && is_meant(tasks[i], target)
            && forall|j: int| 0 <= j < i ==> !is_meant(#[trigger] tasks[j], target),
{
    first_meant_is_first(tasks, target);
}

/// A task stays beside another if and only if the two have different processes
/// and different identifiers.
pub proof fn tasks_stay_beside_different_ones(a: DaemonTask, b: DaemonTask)
    ensures
        !stays_beside(a, b) <==> a.pid == b.pid || a.id@ == b.id@,
        stays_beside(a, b) == stays_beside(b, a),
{
}

/// A task that joins the list is its last, those stay before it that share
/// neither process nor identifier with it, and no others.
pub proof fn newcomers_replace_their_likes(tasks: Seq<DaemonTask>, task: DaemonTask, k: int)
    requires
        0 <= k < tasks.len(),
    ensures
        ({
            let after = tasks.filter(|t: DaemonTask| stays_beside(t, task)).push(task);
            &&& after.last() == task
            &&& tasks[k].pid != task.pid && tasks[k].id@ != task.id@ ==> after.contains(tasks[k])
            &&& forall|i: int|
                0 <= i < after.len() - 1 ==> (#[trigger] after[i]).pid != task.pid && after[i].id@
                    != task.id@ && tasks.contains(after[i])
        }),
{
    let keep = |t: DaemonTask| stays_beside(t, task);
    let kept = tasks.filter(keep);
    let after = kept.push(task);
    lemma_filter_members(tasks, keep);
    assert forall|i: int| 0 <= i < after.len() - 1 implies (#[trigger] after[i]).pid != task.pid
        && after[i].id@ != task.id@ && tasks.contains(after[i]) by {
        assert(after[i] == kept[i]);
        assert(keep(kept[i]));
    }
    if keep(tasks[k]) {
        lemma_filter_keeps(tasks, keep, k);
        let j = choose|j: int| 0 <= j < kept.len() && kept[j] == tasks[k];
        assert(after[j] == tasks[k]);
    }
}

/// What passes a filter is in what it keeps.
pub proof fn lemma_filter_keeps<A>(s: Seq<A>, keep: spec_fn(A) -> bool, k: int)
    requires
        0 <= k < s.len(),
        keep(s[k]),
    ensures
        s.filter(keep).contains(s[k]),
    decreases s.len(),
{
    reveal(Seq::filter);
    let front = s.drop_last();
    if k < s.len() - 1 {
        lemma_filter_keeps(front, keep, k);
        assert(front[k] == s[k]);
        let j = choose|j: int| 0 <= j < front.filter(keep).len() && front.filter(keep)[j] == s[k];
        assert(s.filter(keep)[j] == s[k]);
    } else {
        assert(s.filter(keep).last() == s[k]);
    }
}

/// A task without an identifier is given one that is made of the time and the
/// process, and keeps all else; a task that has one keeps all.
pub proof fn identifiers_are_filled_in(
    before: DaemonTask,
    after: DaemonTask,
    millis: nat,
    process: nat,
)
    requires
        has_id_filled(before, after, millis, process),
    ensures
        after.id@.len() > 0,
        before.id@.len() > 0 ==> after == before,
        before.id@.len() == 0 ==> after.id@ == "task_"@ + decimal(millis) + "_"@ + decimal(process),
        after.name == before.name,
        after.pid == before.pid,
        after.enabled == before.enabled,
        after.paused_until == before.paused_until,
        after.task == before.task,
        task_id(millis, process) == "task_"@ + decimal(millis) + "_"@ + decimal(process),
{
    reveal_strlit("task_");
}

/// A task is started again if and only if it is enabled and its pause, if it has
/// one, is over; it rests exactly as long as its pause has not come to an end.
pub proof fn enabled_tasks_are_started_again(t: DaemonTask, now: int)
    ensures
        rests(t, now) <==> (t.paused_until matches Some(until) && now < until),
        restarts(t, now) <==> t.enabled && (t.paused_until matches Some(until) ==> until <= now),
{
}

/// The word that means all tasks is `all`, in letters of either case, and no
/// other.
pub proof fn all_is_the_word_for_all(target: Seq<char>)
    ensures
        is_all(target) <==> {
            &&& target.len() == 3
            &&& target[0] == 'a' || target[0] == 'A'
            &&& target[1] == 'l' || target[1] == 'L'
            &&& target[2] == 'l' || target[2] == 'L'
        },
{
    reveal_strlit("all");
    let low = lowered(target);
    assert("all"@.len() == 3 && "all"@[0] == 'a' && "all"@[1] == 'l' && "all"@[2] == 'l');
    if target.len() == 3 {
        lemma_letter(target[0]);
        lemma_letter(target[1]);
        lemma_letter(target[2]);
        assert(low[0] == lower_char(target[0]));
        assert(low[1] == lower_char(target[1]));
        assert(low[2] == lower_char(target[2]));
        if low[0] == 'a' && low[1] == 'l' && low[2] == 'l' {
            assert(low =~= "all"@);
        }
    }
}

proof fn lemma_letter(c: char)
    ensures
        lower_char(c) == 'a' <==> c == 'a' || c == 'A',
        lower_char(c) == 'l' <==> c == 'l' || c == 'L',
{
}

/// The processes of the tasks are those of the tasks, in their order; a task is
/// called by its name if it has one; and one that is not found is named.
pub proof fn tasks_are_told_apart(tasks: Seq<DaemonTask>, i: int, target: Seq<char>)
    ensures
        pids(tasks).len() == tasks.len(),
        0 <= i < tasks.len() ==> pids(tasks)[i] == tasks[i].pid,
        0 <= i < tasks.len() ==> (tasks[i].name matches Some(name) ==> title(tasks[i]) == name@),
        0 <= i < tasks.len() && tasks[i].name is None ==> title(tasks[i]) == tasks[i].id@,
        nobody(target) == "No daemon found for "@ + target,
{
}

/// The files of the state lie in a directory of the program's name below the
/// user's directory for configuration, or below the current directory; a log
/// lies in the directory of the logs under the number of its process.
pub proof fn state_lies_below_the_home(state: StateManager, home: Seq<char>, name: Seq<char>, pid: nat)
    ensures
        state_dir(Platform::Unix, Some(encode_utf8(home))) == encode_utf8(
            joined(Platform::Unix, home, "autofilemgrd"@),
        ),
        state_dir(Platform::Windows, Some(encode_utf8(home))) == encode_utf8(
            joined(Platform::Windows, home, "autofilemgrd"@),
        ),
        state_dir(state.on(), None) == state_dir(state.on(), Some(encode_utf8("."@))),
        state.dir() == encode_utf8(home) ==> state.file(name) == encode_utf8(
            joined(state.on(), home, name),
        ),
        state.dir() == encode_utf8(home) ==> state.log(pid) == encode_utf8(
            joined(state.on(), joined(state.on(), home, "logs"@), decimal(pid) + ".log"@),
        ),
{
    text_is_joined_as_text(Platform::Unix, home, "autofilemgrd"@);
    text_is_joined_as_text(Platform::Windows, home, "autofilemgrd"@);
    text_is_joined_as_text(state.on(), home, name);
    text_is_joined_as_text(state.on(), home, "logs"@);
    text_is_joined_as_text(
        state.on(),
        joined(state.on(), home, "logs"@),
        decimal(pid) + ".log"@,
    );
}

/// A task has as many issues as there are things wrong with it: that it has no
/// identifier, that it is enabled and not running, and that a path of it is not
/// there; each has a line of its own, in this order.
pub proof fn issues_are_told(task: DaemonTask, named: DaemonTask, running: bool, present: bool)
    ensures
        ({
            let lines = issues(task, named, running, present);
            let no_id = task.id@.len() == 0;
            let stopped = task.enabled && !running;
            let a: int = if no_id {
                1
            } else {
                0
            };
            let b: int = if stopped {
                1
            } else {
                0
            };
            let c: int = if present {
                0
            } else {
                1
            };
            &&& lines.len() == a + b + c
            &&& no_id ==> lines[0] == "missing id for PID "@ + decimal(task.pid as nat)
            &&& stopped ==> lines[a] == "stopped task: "@ + title(named) + " pid="@ + decimal(
                task.pid as nat,
            )
            &&& !present ==> lines[a + b] == "missing path: "@ + details(task.task)
        }),
{
}

/// The issues of a list are those of its tasks, one task after the other.
pub proof fn issues_come_task_by_task(
    tasks: Seq<DaemonTask>,
    named: Seq<DaemonTask>,
    running: Seq<bool>,
    present: Seq<bool>,
    k: int,
)
    requires
        0 <= k < tasks.len(),
    ensures
        all_issues(tasks.take(k + 1), named, running, present) == all_issues(
            tasks.take(k),
            named,
            running,
            present,
        ) + issues(tasks[k], named[k], running[k], present[k]),
        all_issues(seq![], named, running, present) == Seq::<Seq<char>>::empty(),
{
    assert(tasks.take(k + 1).drop_last() =~= tasks.take(k));
}

/// A task is dropped when the list is mended if and only if it is disabled, has
/// no process and lacks a path; those that are kept stay in their order.
pub proof fn dead_tasks_are_dropped(
    tasks: Seq<DaemonTask>,
    running: Seq<bool>,
    present: Seq<bool>,
    k: int,
)
    requires
        0 <= k < tasks.len(),
    ensures
        worth_keeping(seq![], running, present) == Seq::<DaemonTask>::empty(),
        !tasks[k].enabled && !running[k] && !present[k] ==> worth_keeping(
            tasks.take(k + 1),
            running,
            present,
        ) == worth_keeping(tasks.take(k), running, present),
        tasks[k].enabled || running[k] || present[k] ==> worth_keeping(
            tasks.take(k + 1),
            running,
            present,
        ) == worth_keeping(tasks.take(k), running, present).push(tasks[k]),
{
    assert(tasks.take(k + 1).drop_last() =~= tasks.take(k));
}

/// A search ends with the number of issues, or the remark that there are none;
/// before that it is said that the list was mended, if and only if it was.
pub proof fn search_ends_with_the_number_of_issues(repair: bool, found: nat)
    ensures
        ({
            let lines = closing(repair, found);
            &&& repair <==> lines.len() == 2
            &&& !repair <==> lines.len() == 1
            &&& repair ==> lines[0] == "Repair complete."@
            &&& found == 0 ==> lines.last() == "No issues found."@
            &&& found > 0 ==> lines.last() == "Found "@ + decimal(found) + " issue(s)."@
        }),
{
}

} // verus!
