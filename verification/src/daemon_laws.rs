//! What holds of the list of tasks whatever is done to it.

use vstd::prelude::*;

use crate::clock::is_time;
use crate::daemon::{DaemonTask, StateManager};
use crate::daemon::{distinct, first_meant, first_meant_is_first, has_id_filled, is_meant, rests};
use crate::daemon::{stays_beside, task_id};
use crate::duration::{duration_seconds, pause_answer};
use crate::number::{decimal, decimal_is_injective, decimal_reads_back, is_digit};
use crate::paths::join_is_injective;
use crate::text::opt_text;

verus! {

/// What a filter keeps, passes it; what passes it and was there, is kept.
pub proof fn lemma_filter_members<A>(s: Seq<A>, keep: spec_fn(A) -> bool)
    ensures
        forall|i: int|
            0 <= i < s.filter(keep).len() ==> keep(#[trigger] s.filter(keep)[i]) && s.contains(
                s.filter(keep)[i],
            ),
        s.filter(keep).len() <= s.len(),
        s.filter(keep).len() == s.len() <==> forall|i: int|
            0 <= i < s.len() ==> keep(#[trigger] s[i]),
    decreases s.len(),
{
    reveal(Seq::filter);
    if s.len() > 0 {
        let front = s.drop_last();
        lemma_filter_members(front, keep);
        assert(forall|i: int| 0 <= i < front.len() ==> front[i] == #[trigger] s[i]);
        assert forall|i: int| 0 <= i < s.filter(keep).len() implies keep(
            #[trigger] s.filter(keep)[i],
        ) && s.contains(s.filter(keep)[i]) by {
            if i < front.filter(keep).len() {
                assert(s.filter(keep)[i] == front.filter(keep)[i]);
                let j = choose|j: int| 0 <= j < front.len() && front[j] == front.filter(keep)[i];
                assert(s[j] == s.filter(keep)[i]);
            } else {
                assert(s.filter(keep)[i] == s.last());
            }
        }
    }
}

/// Leaving tasks out keeps the others apart.
pub proof fn removing_keeps_distinct(tasks: Seq<DaemonTask>, keep: spec_fn(DaemonTask) -> bool)
    requires
        distinct(tasks),
    ensures
        distinct(tasks.filter(keep)),
    decreases tasks.len(),
{
    reveal(Seq::filter);
    if tasks.len() > 0 {
        let front = tasks.drop_last();
        assert(forall|i: int| 0 <= i < front.len() ==> front[i] == #[trigger] tasks[i]);
        removing_keeps_distinct(front, keep);
        lemma_filter_members(front, keep);
        if keep(tasks.last()) {
            let kept = tasks.filter(keep);
            assert forall|i: int, j: int| 0 <= i < j < kept.len() implies stays_beside(
                #[trigger] kept[i],
                #[trigger] kept[j],
            ) by {
                assert(kept[i] == front.filter(keep)[i]);
                if j < front.filter(keep).len() {
                    assert(kept[j] == front.filter(keep)[j]);
                } else {
                    let k = choose|k: int|
                        0 <= k < front.len() && front[k] == front.filter(keep)[i];
                    assert(stays_beside(tasks[k], tasks[tasks.len() - 1]));
                }
            }
        }
    }
}

/// Adding a task keeps all tasks apart: no two share a process or an
/// identifier afterwards if none did before.
pub proof fn adding_keeps_distinct(tasks: Seq<DaemonTask>, task: DaemonTask)
    requires
        distinct(tasks),
    ensures
        distinct(tasks.filter(|t: DaemonTask| stays_beside(t, task)).push(task)),
{
    let keep = |t: DaemonTask| stays_beside(t, task);
    removing_keeps_distinct(tasks, keep);
    lemma_filter_members(tasks, keep);
    let kept = tasks.filter(keep);
    assert forall|i: int, j: int| 0 <= i < j < kept.push(task).len() implies stays_beside(
        #[trigger] kept.push(task)[i],
        #[trigger] kept.push(task)[j],
    ) by {
        assert(kept.push(task)[i] == kept[i]);
        assert(keep(kept[i]));
    }
}

/// Enabling, disabling, pausing and resuming keep all tasks apart, whichever
/// tasks they change.
pub proof fn switching_keeps_distinct(before: Seq<DaemonTask>, after: Seq<DaemonTask>)
    requires
        distinct(before),
        after.len() == before.len(),
        forall|i: int|
            0 <= i < before.len() ==> #[trigger] after[i] == (DaemonTask {
                enabled: after[i].enabled,
                paused_until: after[i].paused_until,
                ..before[i]
            }),
    ensures
        distinct(after),
{
    assert forall|i: int, j: int| 0 <= i < j < after.len() implies stays_beside(
        #[trigger] after[i],
        #[trigger] after[j],
    ) by {
        assert(stays_beside(before[i], before[j]));
    }
}

/// After the tasks that `target` means have been removed it means none, and
/// something was removed exactly if it meant one before.
pub proof fn removed_is_not_found(tasks: Seq<DaemonTask>, target: Seq<char>)
    ensures
        first_meant(tasks.filter(|t: DaemonTask| !is_meant(t, target)), target) is None,
        tasks.filter(|t: DaemonTask| !is_meant(t, target)).len() != tasks.len() <==> first_meant(
            tasks,
            target,
        ) is Some,
{
    let keep = |t: DaemonTask| !is_meant(t, target);
    lemma_filter_members(tasks, keep);
    first_meant_is_first(tasks.filter(keep), target);
    first_meant_is_first(tasks, target);
    if tasks.filter(keep).len() != tasks.len() {
        let i = choose|i: int| 0 <= i < tasks.len() && !keep(#[trigger] tasks[i]);
        assert(is_meant(tasks[i], target));
    } else {
        assert forall|j: int| 0 <= j < tasks.len() implies !is_meant(#[trigger] tasks[j], target) by {
            assert(keep(tasks[j]));
        }
    }
}

/// A task that was added is found by its identifier, unless another task bears
/// that identifier as its name or the number of its process.
pub proof fn added_is_found(tasks: Seq<DaemonTask>, task: DaemonTask)
    requires
        forall|i: int|
            0 <= i < tasks.len() ==> opt_text((#[trigger] tasks[i]).name) != Some(
                task.id@,
            ) && decimal(tasks[i].pid as nat) != task.id@,
    ensures
        ({
            let after = tasks.filter(|t: DaemonTask| stays_beside(t, task)).push(task);
            first_meant(after, task.id@) == Some(after.len() - 1)
        }),
{
    let keep = |t: DaemonTask| stays_beside(t, task);
    lemma_filter_members(tasks, keep);
    let kept = tasks.filter(keep);
    first_meant_is_first(kept, task.id@);
    assert forall|i: int| 0 <= i < kept.len() implies !is_meant(#[trigger] kept[i], task.id@) by {
        assert(keep(kept[i]));
        assert(tasks.contains(kept[i]));
    }
    assert(kept.push(task).drop_last() =~= kept);
}

/// Once the list has been read every task has an identifier, and reading it
/// again changes nothing.
pub proof fn loading_is_idempotent(
    stored: DaemonTask,
    loaded: DaemonTask,
    again: DaemonTask,
    millis: nat,
    later: nat,
    process: nat,
    other: nat,
)
    requires
        has_id_filled(stored, loaded, millis, process),
        has_id_filled(loaded, again, later, other),
    ensures
        loaded.id@.len() > 0,
        again == loaded,
{
    decimal_reads_back(millis);
}

/// A text without `sep` before the first `sep` is determined by the whole.
pub proof fn lemma_split_is_unique(
    a: Seq<char>,
    b: Seq<char>,
    c: Seq<char>,
    d: Seq<char>,
    sep: char,
)
    requires
        !a.contains(sep),
        !c.contains(sep),
        a.push(sep) + b == c.push(sep) + d,
    ensures
        a == c,
        b == d,
{
    let left = a.push(sep) + b;
    let right = c.push(sep) + d;
    if a.len() < c.len() {
        assert(left[a.len() as int] == sep);
        assert(right[a.len() as int] == c[a.len() as int]);
        assert(c.contains(c[a.len() as int]));
    } else if c.len() < a.len() {
        assert(right[c.len() as int] == sep);
        assert(left[c.len() as int] == a[c.len() as int]);
        assert(a.contains(a[c.len() as int]));
    }
    assert forall|i: int| 0 <= i < a.len() implies a[i] == c[i] by {
        assert(left[i] == a[i]);
        assert(right[i] == c[i]);
    }
    assert(a =~= c);
    assert(left.skip(a.len() as int + 1) =~= b);
    assert(right.skip(c.len() as int + 1) =~= d);
}

/// Identifiers made at different times or by different processes differ.
pub proof fn task_ids_differ(millis: nat, process: nat, other_millis: nat, other_process: nat)
    requires
        task_id(millis, process) == task_id(other_millis, other_process),
    ensures
        millis == other_millis,
        process == other_process,
{
    reveal_strlit("task_");
    reveal_strlit("_");
    let (a, b) = (decimal(millis), decimal(process));
    let (c, d) = (decimal(other_millis), decimal(other_process));
    decimal_reads_back(millis);
    decimal_reads_back(other_millis);
    assert(!a.contains('_')) by {
        assert forall|i: int| 0 <= i < a.len() implies a[i] != '_' by {
            assert(is_digit(a[i]));
        }
    }
    assert(!c.contains('_')) by {
        assert forall|i: int| 0 <= i < c.len() implies c[i] != '_' by {
            assert(is_digit(c[i]));
        }
    }
    assert(task_id(millis, process).skip(5) =~= a.push('_') + b);
    assert(task_id(other_millis, other_process).skip(5) =~= c.push('_') + d);
    lemma_split_is_unique(a, b, c, d, '_');
    decimal_is_injective(millis, other_millis);
    decimal_is_injective(process, other_process);
}

/// No two processes share a log.
pub proof fn logs_are_apart(state: StateManager, pid: nat, other: nat)
    requires
        state.log(pid) == state.log(other),
    ensures
        pid == other,
{
    let (a, b) = (decimal(pid) + ".log"@, decimal(other) + ".log"@);
    join_is_injective(state.on(), state.file("logs"@), a, b);
    reveal_strlit(".log");
    assert(a.take(a.len() - 4) =~= decimal(pid));
    assert(b.take(b.len() - 4) =~= decimal(other));
    decimal_is_injective(pid, other);
}

/// Different names are different files, so that the list of tasks, the record
/// of what happened, the record of what can be taken back and the scripts do
/// not overwrite each other.
pub proof fn files_are_apart(state: StateManager, a: Seq<char>, b: Seq<char>)
    requires
        state.file(a) == state.file(b),
    ensures
        a == b,
{
    join_is_injective(state.on(), state.dir(), a, b);
}

/// The names of the files that the state is kept in differ.
pub proof fn file_names_differ()
    ensures
        seq![
            "state.json"@,
            "history.jsonl"@,
            "undo.jsonl"@,
            "logs"@,
            "startup.vbs"@,
            "tray.ps1"@,
        ].no_duplicates(),
{
    reveal_strlit("state.json");
    reveal_strlit("history.jsonl");
    reveal_strlit("undo.jsonl");
    reveal_strlit("logs");
    reveal_strlit("startup.vbs");
    reveal_strlit("tray.ps1");
    assert("state.json"@[0] == 's' && "state.json"@.len() == 10);
    assert("history.jsonl"@[0] == 'h');
    assert("undo.jsonl"@[0] == 'u');
    assert("logs"@[0] == 'l');
    assert("startup.vbs"@[0] == 's' && "startup.vbs"@.len() == 11);
    assert("tray.ps1"@[0] == 't');
}

/// Which task is meant first depends only on what the tasks are called and on
/// their processes.
proof fn lemma_first_meant_stays(before: Seq<DaemonTask>, after: Seq<DaemonTask>, target: Seq<char>)
    requires
        before.len() == after.len(),
        forall|i: int|
            0 <= i < before.len() ==> is_meant(#[trigger] after[i], target) == is_meant(
                before[i],
                target,
            ),
    ensures
        first_meant(after, target) == first_meant(before, target),
    decreases before.len(),
{
    if before.len() > 0 {
        let (b, a) = (before.drop_last(), after.drop_last());
        assert forall|i: int| 0 <= i < b.len() implies is_meant(#[trigger] a[i], target)
            == is_meant(b[i], target) by {
            assert(a[i] == after[i] && b[i] == before[i]);
        }
        lemma_first_meant_stays(b, a, target);
        assert(is_meant(after[after.len() - 1], target) == is_meant(
            before[before.len() - 1],
            target,
        ));
    }
}

/// Switching a task, or pausing it, can be taken back: the same task is still
/// meant, and setting it to what it was gives the list as it was.
pub proof fn changes_can_be_taken_back(
    tasks: Seq<DaemonTask>,
    target: Seq<char>,
    enabled: bool,
    paused_until: Option<i64>,
)
    requires
        first_meant(tasks, target) is Some,
    ensures
        ({
            let i = first_meant(tasks, target)->0;
            let switched = tasks.update(i, DaemonTask { enabled, ..tasks[i] });
            let paused = tasks.update(i, DaemonTask { paused_until, ..tasks[i] });
            &&& 0 <= i < tasks.len()
            &&& first_meant(switched, target) == Some(i)
            &&& first_meant(paused, target) == Some(i)
            &&& switched.update(i, DaemonTask { enabled: tasks[i].enabled, ..switched[i] })
                == tasks
            &&& paused.update(i, DaemonTask { paused_until: tasks[i].paused_until, ..paused[i] })
                == tasks
        }),
{
    first_meant_is_first(tasks, target);
    let i = first_meant(tasks, target)->0;
    let switched = tasks.update(i, DaemonTask { enabled, ..tasks[i] });
    let paused = tasks.update(i, DaemonTask { paused_until, ..tasks[i] });
    lemma_first_meant_stays(tasks, switched, target);
    lemma_first_meant_stays(tasks, paused, target);
    assert(switched.update(i, DaemonTask { enabled: tasks[i].enabled, ..switched[i] }) =~= tasks);
    assert(paused.update(i, DaemonTask { paused_until: tasks[i].paused_until, ..paused[i] })
        =~= tasks);
}

/// A task that was resumed rests at no time, and one that was paused rests
/// until its time has come and not longer.
pub proof fn pausing_lasts(task: DaemonTask, until: i64, now: int)
    ensures
        !rests(DaemonTask { paused_until: None, ..task }, now),
        rests(DaemonTask { paused_until: Some(until), ..task }, now) <==> now < until,
{
}

/// A task that is paused without a duration rests at every time that the clock
/// can tell, until it is resumed; one that is paused for so many seconds rests
/// exactly so long.
pub proof fn pauses_last_as_long_as_told(
    task: DaemonTask,
    duration: Option<Seq<char>>,
    start: int,
    time: int,
)
    requires
        is_time(start),
        is_time(time),
        pause_answer(duration, start) matches Some(Ok(_)),
    ensures
        ({
            let until = pause_answer(duration, start)->0->Ok_0;
            let paused = DaemonTask { paused_until: until, ..task };
            match duration {
                None => rests(paused, time),
                Some(d) => rests(paused, time) <==> time < start + duration_seconds(d)->Ok_0,
            }
        }),
{
}

} // verus!
