//! Looking for what is wrong with the tasks, and mending it.

use vstd::prelude::*;
use vstd::string::*;

use crate::control::title;
use crate::control::title_of;
use crate::daemon::{DaemonTask, TaskType};
use crate::daemon::generate_task_id;
use crate::daemon::has_id_filled;
use crate::number::decimal;
use crate::number::to_decimal;
use crate::status::details;
use crate::status::task_details;
use crate::text::{opt_str, texts};
use crate::text::{is_text, push_text};

verus! {

/// The size above which a log is put aside.
pub const MAX_LOG_SIZE: u64 = 10_485_760;

/// Whether the paths of a task are there, when `first` says so of the folder
/// that it watches and `dest` of the folder that it mirrors to. The latter does
/// not count if it is on another machine.
pub fn task_path_exists(task: &TaskType, first: bool, dest: bool) -> (r: bool)
    ensures
        r == match *task {
            TaskType::Mirror { remote, .. } => first && (remote is Some || dest),
            _ => first,
        },
{
    match task {
        TaskType::Mirror { remote, .. } => first && (remote.is_some() || dest),
        _ => first,
    }
}

/// Whether a file with this extension is a log.
pub fn is_log(extension: Option<&str>) -> (r: bool)
    ensures
        r == (opt_str(extension) == Some("log"@)),
{
    is_text(extension, "log")
}

/// Whether a log has grown beyond `max_size` and is to be put aside.
pub fn rotate_logs(size: u64, max_size: u64) -> (r: bool)
    ensures
        r == (size > max_size),
{
    size > max_size
}

/// The extension of a log that was put aside.
pub fn rotated_extension() -> (r: &'static str)
    ensures
        r@ == "log.1"@,
{
    "log.1"
}

/// What is wrong with a task: `running` says whether its process is there, and
/// `present` whether its paths are. `named` is the task by the name that it is
/// spoken of.
pub open spec fn issues(task: DaemonTask, named: DaemonTask, running: bool, present: bool) -> Seq<
    Seq<char>,
> {
    (if task.id@.len() == 0 {
        seq!["missing id for PID "@ + decimal(task.pid as nat)]
    } else {
        seq![]
    }) + (if task.enabled && !running {
        seq!["stopped task: "@ + title(named) + " pid="@ + decimal(task.pid as nat)]
    } else {
        seq![]
    }) + (if !present {
        seq!["missing path: "@ + details(task.task)]
    } else {
        seq![]
    })
}

/// What is wrong with the tasks, in their order.
pub open spec fn all_issues(
    tasks: Seq<DaemonTask>,
    named: Seq<DaemonTask>,
    running: Seq<bool>,
    present: Seq<bool>,
) -> Seq<Seq<char>>
    decreases tasks.len(),
{
    if tasks.len() == 0 {
        seq![]
    } else {
        let k = tasks.len() - 1;
        all_issues(tasks.drop_last(), named, running, present) + issues(
            tasks[k],
            named[k],
            running[k],
            present[k],
        )
    }
}

/// The issues of a task depend on no task but the one it is spoken of by.
proof fn lemma_issues_of_front(
    tasks: Seq<DaemonTask>,
    a: Seq<DaemonTask>,
    b: Seq<DaemonTask>,
    running: Seq<bool>,
    present: Seq<bool>,
)
    requires
        forall|i: int| 0 <= i < tasks.len() ==> #[trigger] a[i] == b[i],
    ensures
        all_issues(tasks, a, running, present) == all_issues(tasks, b, running, present),
    decreases tasks.len(),
{
    if tasks.len() > 0 {
        lemma_issues_of_front(tasks.drop_last(), a, b, running, present);
        assert(a[tasks.len() - 1] == b[tasks.len() - 1]);
    }
}

/// Looks for what is wrong with the tasks, one line for each issue. `running`
/// and `present` say of each task whether its process is there, and whether its
/// paths are. To mend it, a task without an identifier is given one, the task
/// at position `i` after the time `stamps[i]`; the flag says whether any was.
pub fn diagnose(
    tasks: &mut Vec<DaemonTask>,
    running: &Vec<bool>,
    present: &Vec<bool>,
    repair: bool,
    stamps: &Vec<u128>,
    process: u32,
) -> (r: (Vec<String>, bool))
    requires
        running@.len() == old(tasks)@.len(),
        present@.len() == old(tasks)@.len(),
        stamps@.len() == old(tasks)@.len(),
    ensures
        final(tasks)@.len() == old(tasks)@.len(),
        forall|i: int|
            0 <= i < old(tasks)@.len() ==> if repair {
                has_id_filled(
                    #[trigger] old(tasks)@[i],
                    final(tasks)@[i],
                    stamps@[i] as nat,
                    process as nat,
                )
            } else {
                final(tasks)@[i] == old(tasks)@[i]
            },
        texts(r.0@) == all_issues(old(tasks)@, final(tasks)@, running@, present@),
        r.1 == (repair && exists|i: int|
            0 <= i < old(tasks)@.len() && (#[trigger] old(tasks)@[i]).id@.len() == 0),
{
    let ghost before = tasks@;
    let mut lines: Vec<String> = Vec::new();
    let mut changed = false;
    let mut i: usize = 0;
    assert(texts(lines@) =~= seq![]);
    assert(before.take(0) =~= seq![]);
    while i < tasks.len()
        invariant
            i <= tasks@.len(),
            tasks@.len() == before.len(),
            running@.len() == before.len(),
            present@.len() == before.len(),
            stamps@.len() == before.len(),
            forall|j: int| i <= j < before.len() ==> tasks@[j] == #[trigger] before[j],
            forall|j: int|
                0 <= j < i ==> if repair {
                    has_id_filled(
                        #[trigger] before[j],
                        tasks@[j],
                        stamps@[j] as nat,
                        process as nat,
                    )
                } else {
                    tasks@[j] == before[j]
                },
            texts(lines@) == all_issues(before.take(i as int), tasks@, running@, present@),
            changed == (repair && exists|j: int|
                0 <= j < i && (#[trigger] before[j]).id@.len() == 0),
        decreases tasks.len() - i,
    {
        let ghost was = tasks@;
        let ghost t = before[i as int];
        let ghost said = texts(lines@);
        assert(tasks@[i as int] == t);
        let pid = to_decimal(tasks[i].pid as u128);
        if tasks[i].id.as_str().is_empty() {
            let mut line = "missing id for PID ".to_owned();
            line.append(pid.as_str());
            push_text(&mut lines, line.as_str());
            if repair {
                tasks[i].id = generate_task_id(stamps[i], process);
                changed = true;
            }
        }
        let ghost now = tasks@;
        if tasks[i].enabled && !running[i] {
            let mut line = "stopped task: ".to_owned();
            line.append(title_of(&tasks[i]));
            line.append(" pid=");
            line.append(pid.as_str());
            push_text(&mut lines, line.as_str());
        }
        if !present[i] {
            let mut line = "missing path: ".to_owned();
            line.append(task_details(&tasks[i].task).as_str());
            push_text(&mut lines, line.as_str());
        }
        proof {
            let front = before.take(i as int);
            let next = before.take(i + 1);
            assert(next.drop_last() =~= front);
            assert(forall|j: int| 0 <= j < front.len() ==> #[trigger] was[j] == now[j]);
            lemma_issues_of_front(front, was, now, running@, present@);
            assert(texts(lines@) =~= said + issues(
                t,
                now[i as int],
                running@[i as int],
                present@[i as int],
            ));
        }
        i = i + 1;
    }
    assert(before.take(i as int) =~= before);
    (lines, changed)
}

/// The tasks that are kept when the list is mended: those that are enabled, or
/// have a process, or have their paths.
pub open spec fn worth_keeping(tasks: Seq<DaemonTask>, running: Seq<bool>, present: Seq<bool>) -> Seq<
    DaemonTask,
>
    decreases tasks.len(),
{
    if tasks.len() == 0 {
        seq![]
    } else {
        let k = tasks.len() - 1;
        let front = worth_keeping(tasks.drop_last(), running, present);
        if tasks[k].enabled || running[k] || present[k] {
            front.push(tasks[k])
        } else {
            front
        }
    }
}

/// Drops the tasks that are not worth keeping, and says whether there were any.
pub fn drop_dead_tasks(
    tasks: &mut Vec<DaemonTask>,
    running: &Vec<bool>,
    present: &Vec<bool>,
) -> (r: bool)
    requires
        running@.len() == old(tasks)@.len(),
        present@.len() == old(tasks)@.len(),
    ensures
        final(tasks)@ == worth_keeping(old(tasks)@, running@, present@),
        r == (final(tasks)@.len() != old(tasks)@.len()),
{
    let count: usize = tasks.len();
    let mut all: Vec<DaemonTask> = Vec::new();
    std::mem::swap(&mut all, tasks);
    let ghost before = all@;
    let mut i: usize = 0;
    assert(before.take(0) =~= seq![]);
    for t in it: all
        invariant
            it.seq() == before,
            i == it.index(),
            count == before.len(),
            before.len() == running@.len(),
            before.len() == present@.len(),
            tasks@ == worth_keeping(before.take(i as int), running@, present@),
    {
        assert(before.take(i + 1).drop_last() =~= before.take(i as int));
        if t.enabled || running[i] || present[i] {
            tasks.push(t);
        }
        i = i + 1;
    }
    assert(before.take(before.len() as int) =~= before);
    tasks.len() != count
}

/// Ends a search for what is wrong: if it is to be mended, drops the tasks that
/// are not worth keeping. `filled` says whether [`diagnose`] gave an identifier
/// to any task. The answer is whether the list has to be written.
pub fn handle_doctor(
    tasks: &mut Vec<DaemonTask>,
    running: &Vec<bool>,
    present: &Vec<bool>,
    repair: bool,
    filled: bool,
) -> (r: bool)
    requires
        repair ==> running@.len() == old(tasks)@.len() && present@.len() == old(tasks)@.len(),
    ensures
        final(tasks)@ == if repair {
            worth_keeping(old(tasks)@, running@, present@)
        } else {
            old(tasks)@
        },
        r == (repair && (filled || final(tasks)@.len() != old(tasks)@.len())),
{
    if !repair {
        return false;
    }
    let dropped = drop_dead_tasks(tasks, running, present);
    filled || dropped
}

/// The lines at the end of a search that found so many issues.
pub open spec fn closing(repair: bool, found: nat) -> Seq<Seq<char>> {
    (if repair {
        seq!["Repair complete."@]
    } else {
        seq![]
    }) + seq![
        if found == 0 {
            "No issues found."@
        } else {
            "Found "@ + decimal(found) + " issue(s)."@
        },
    ]
}

/// The lines at the end of a search that found so many issues.
pub fn closing_lines(repair: bool, found: usize) -> (r: Vec<String>)
    ensures
        texts(r@) == closing(repair, found as nat),
{
    let mut out: Vec<String> = Vec::new();
    if repair {
        push_text(&mut out, "Repair complete.");
    }
    if found == 0 {
        push_text(&mut out, "No issues found.");
    } else {
        let mut line = "Found ".to_owned();
        line.append(to_decimal(found as u128).as_str());
        line.append(" issue(s).");
        push_text(&mut out, line.as_str());
    }
    assert(texts(out@) =~= closing(repair, found as nat));
    out
}

/// Mending drops no task that is enabled, and none that has a process or its
/// paths; what it keeps was there before.
pub proof fn mending_keeps_what_works(
    tasks: Seq<DaemonTask>,
    running: Seq<bool>,
    present: Seq<bool>,
)
    ensures
        worth_keeping(tasks, running, present).len() <= tasks.len(),
        forall|i: int|
            0 <= i < tasks.len() && (tasks[i].enabled || running[i] || present[i])
                ==> worth_keeping(tasks, running, present).contains(#[trigger] tasks[i]),
        forall|t: DaemonTask|
            #[trigger] worth_keeping(tasks, running, present).contains(t) ==> tasks.contains(t),
    decreases tasks.len(),
{
    if tasks.len() > 0 {
        let front = tasks.drop_last();
        let k = tasks.len() - 1;
        mending_keeps_what_works(front, running, present);
        let kept_front = worth_keeping(front, running, present);
        let kept = worth_keeping(tasks, running, present);
        assert forall|i: int|
            0 <= i < tasks.len() && (tasks[i].enabled || running[i] || present[i]) implies kept.contains(
            #[trigger] tasks[i],
        ) by {
            if i < k {
                assert(front[i] == tasks[i]);
                assert(kept_front.contains(front[i]));
                let j = choose|j: int| 0 <= j < kept_front.len() && kept_front[j] == front[i];
                assert(kept[j] == tasks[i]);
            } else {
                assert(kept.last() == tasks[k]);
            }
        }
        assert forall|t: DaemonTask| #[trigger] kept.contains(t) implies tasks.contains(t) by {
            let j = choose|j: int| 0 <= j < kept.len() && kept[j] == t;
            if j < kept_front.len() {
                assert(kept_front.contains(t));
                let i = choose|i: int| 0 <= i < front.len() && front[i] == t;
                assert(tasks[i] == t);
            } else {
                assert(tasks[k] == t);
            }
        }
    }
}

/// A list that does not have to be written is as it was read: if no task was
/// without an identifier and none was dropped, filling in identifiers and
/// dropping tasks left all as it was.
pub proof fn unwritten_lists_are_unchanged(
    read: Seq<DaemonTask>,
    filled: Seq<DaemonTask>,
    stamps: Seq<u128>,
    process: nat,
    running: Seq<bool>,
    present: Seq<bool>,
)
    requires
        filled.len() == read.len(),
        forall|i: int|
            0 <= i < read.len() ==> has_id_filled(
                #[trigger] read[i],
                filled[i],
                stamps[i] as nat,
                process,
            ),
        forall|i: int| 0 <= i < read.len() ==> (#[trigger] read[i]).id@.len() > 0,
        worth_keeping(filled, running, present).len() == filled.len(),
    ensures
        worth_keeping(filled, running, present) == read,
{
    assert forall|i: int| 0 <= i < read.len() implies filled[i] == read[i] by {
        assert(read[i].id@.len() > 0);
    }
    assert(filled =~= read);
    lemma_kept_all(filled, running, present);
}

/// If as many tasks are kept as there were, all are kept.
proof fn lemma_kept_all(tasks: Seq<DaemonTask>, running: Seq<bool>, present: Seq<bool>)
    requires
        worth_keeping(tasks, running, present).len() == tasks.len(),
    ensures
        worth_keeping(tasks, running, present) == tasks,
    decreases tasks.len(),
{
    if tasks.len() == 0 {
        assert(tasks =~= seq![]);
    } else {
        let front = tasks.drop_last();
        mending_keeps_what_works(front, running, present);
        lemma_kept_all(front, running, present);
        assert(front.push(tasks.last()) =~= tasks);
    }
}

/// A list in which every task has an identifier, a process and its paths has
/// nothing wrong with it, and mending it changes nothing.
pub proof fn sound_tasks_have_no_issues(
    tasks: Seq<DaemonTask>,
    named: Seq<DaemonTask>,
    running: Seq<bool>,
    present: Seq<bool>,
)
    requires
        running.len() == tasks.len(),
        present.len() == tasks.len(),
        forall|i: int|
            0 <= i < tasks.len() ==> (#[trigger] tasks[i]).id@.len() > 0 && running[i] && present[i],
    ensures
        all_issues(tasks, named, running, present) == Seq::<Seq<char>>::empty(),
        worth_keeping(tasks, running, present) == tasks,
{
    lemma_sound_front(tasks, named, running, present);
}

proof fn lemma_sound_front(
    tasks: Seq<DaemonTask>,
    named: Seq<DaemonTask>,
    running: Seq<bool>,
    present: Seq<bool>,
)
    requires
        tasks.len() <= running.len(),
        tasks.len() <= present.len(),
        forall|i: int|
            0 <= i < tasks.len() ==> (#[trigger] tasks[i]).id@.len() > 0 && running[i] && present[i],
    ensures
        all_issues(tasks, named, running, present) == Seq::<Seq<char>>::empty(),
        worth_keeping(tasks, running, present) == tasks,
    decreases tasks.len(),
{
    if tasks.len() > 0 {
        let front = tasks.drop_last();
        assert(forall|i: int| 0 <= i < front.len() ==> front[i] == #[trigger] tasks[i]);
        assert(tasks[tasks.len() - 1].id@.len() > 0);
        lemma_sound_front(front, named, running, present);
        assert(front.push(tasks.last()) =~= tasks);
        assert(all_issues(tasks, named, running, present) =~= seq![]);
    } else {
        assert(tasks =~= seq![]);
    }
}

} // verus!
