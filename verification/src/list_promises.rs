//! What the operations on the list of tasks promise of whatever they return and
//! leave behind.

use vstd::prelude::*;
use vstd::string::*;
use vstd::utf8::*;

use crate::control::{Deletion, Disabling, deleted, handle_delete, handle_disable, imported};
use crate::control::{kill_pid, new_task, no_daemon, no_task, paused, resumed, should_restart_at};
use crate::control::{started, stop_outcome, title_of};
use crate::daemon::{DaemonTask, StateManager, TaskType, first_meant, first_meant_is_first};
use crate::daemon::{generate_task_id, is_meant, is_paused_at, task_matches};
use crate::daemon_laws::lemma_filter_members;
use crate::doctor::{all_issues, closing_lines, diagnose, drop_dead_tasks, handle_doctor, is_log};
use crate::doctor::{issues, mending_keeps_what_works, rotate_logs, task_path_exists, worth_keeping};
use crate::list_laws::{all_is_the_word_for_all, dead_tasks_are_dropped, identifiers_are_filled_in};
use crate::list_laws::{issues_are_told, issues_come_task_by_task, lemma_filter_keeps};
use crate::list_laws::{newcomers_replace_their_likes, search_ends_with_the_number_of_issues};
use crate::list_laws::tasks_are_meant_by_what_they_are_called;
use crate::number::{NumberError, decimal, parsed};
use crate::paths::{Platform, joined, text_is_joined_as_text};
use crate::text::texts;

verus! {

/// A task is meant by its identifier, its name or the number of its process.
pub proof fn targets_mean_tasks(task: &DaemonTask, target: &str, r: bool)
    requires
        call_ensures(task_matches, (task, target), r),
    ensures
        target@ == task.id@ ==> r,
        (task.name matches Some(name) && name@ == target@) ==> r,
        target@ == decimal(task.pid as nat) ==> r,
        r ==> target@ == task.id@ || (task.name matches Some(name) && target@ == name@) || parsed(
            target@,
            u32::MAX as nat,
        ) == Ok::<nat, NumberError>(task.pid as nat),
{
    tasks_are_meant_by_what_they_are_called(*task, target@);
}

/// A task that joins the list is its last; those stay before it, and only those,
/// that share neither process nor identifier with it.
pub proof fn tasks_join_the_list(
    state: &StateManager,
    tasks: &mut Vec<DaemonTask>,
    task: DaemonTask,
    k: int,
)
    requires
        call_ensures(StateManager::add_task, (state, tasks, task), ()),
        0 <= k < old(tasks)@.len(),
    ensures
        final(tasks)@.len() > 0,
        final(tasks)@.last() == task,
        old(tasks)@[k].pid != task.pid && old(tasks)@[k].id@ != task.id@ ==> final(tasks)@.contains(
            old(tasks)@[k],
        ),
        forall|i: int|
            0 <= i < final(tasks)@.len() - 1 ==> (#[trigger] final(tasks)@[i]).pid != task.pid
                && final(tasks)@[i].id@ != task.id@ && old(tasks)@.contains(final(tasks)@[i]),
{
    newcomers_replace_their_likes(old(tasks)@, task, k);
}

/// A task is switched or told to rest if it is the first that is meant, and then
/// nothing else is changed, neither of it nor of the others; where none is
/// meant, nothing is.
pub proof fn the_first_that_is_meant_is_changed(
    state: &StateManager,
    tasks: &mut Vec<DaemonTask>,
    target: &str,
    enabled: bool,
    r: bool,
    j: int,
)
    requires
        call_ensures(StateManager::set_task_enabled, (state, tasks, target, enabled), r),
        0 <= j < old(tasks)@.len(),
    ensures
        r <==> exists|i: int|
            0 <= i < old(tasks)@.len() && is_meant(#[trigger] old(tasks)@[i], target@),
        final(tasks)@.len() == old(tasks)@.len(),
        ({
            let first = is_meant(old(tasks)@[j], target@) && forall|i: int|
                0 <= i < j ==> !is_meant(#[trigger] old(tasks)@[i], target@);
            &&& first ==> final(tasks)@[j] == (DaemonTask { enabled, ..old(tasks)@[j] })
            &&& !first ==> final(tasks)@[j] == old(tasks)@[j]
        }),
{
    first_meant_is_first(old(tasks)@, target@);
}

/// A pause is set for the first task that is meant and for no other, and changes
/// nothing else of it.
pub proof fn the_first_that_is_meant_rests(
    state: &StateManager,
    tasks: &mut Vec<DaemonTask>,
    target: &str,
    until: Option<i64>,
    r: bool,
    j: int,
)
    requires
        call_ensures(StateManager::set_task_paused_until, (state, tasks, target, until), r),
        0 <= j < old(tasks)@.len(),
    ensures
        r <==> exists|i: int|
            0 <= i < old(tasks)@.len() && is_meant(#[trigger] old(tasks)@[i], target@),
        final(tasks)@.len() == old(tasks)@.len(),
        ({
            let first = is_meant(old(tasks)@[j], target@) && forall|i: int|
                0 <= i < j ==> !is_meant(#[trigger] old(tasks)@[i], target@);
            &&& first ==> final(tasks)@[j] == (DaemonTask { paused_until: until, ..old(tasks)@[j] })
            &&& !first ==> final(tasks)@[j] == old(tasks)@[j]
        }),
{
    first_meant_is_first(old(tasks)@, target@);
}

/// All tasks are switched alike, and nothing else of them is changed.
pub proof fn all_tasks_are_switched(
    state: &StateManager,
    tasks: &mut Vec<DaemonTask>,
    enabled: bool,
    r: usize,
    j: int,
)
    requires
        call_ensures(StateManager::set_all_tasks_enabled, (state, tasks, enabled), r),
    ensures
        r == old(tasks)@.len(),
        final(tasks)@.len() == old(tasks)@.len(),
        0 <= j < old(tasks)@.len() ==> final(tasks)@[j] == (DaemonTask {
            enabled,
            ..old(tasks)@[j]
        }),
{
}

/// Removing takes out every task that is meant and no other; the rest stay.
pub proof fn tasks_that_are_meant_are_removed(
    state: &StateManager,
    tasks: &mut Vec<DaemonTask>,
    target: &str,
    r: bool,
    j: int,
)
    requires
        call_ensures(StateManager::remove_task, (state, tasks, target), r),
        0 <= j < old(tasks)@.len(),
    ensures
        r <==> exists|i: int|
            0 <= i < old(tasks)@.len() && is_meant(#[trigger] old(tasks)@[i], target@),
        !is_meant(old(tasks)@[j], target@) ==> final(tasks)@.contains(old(tasks)@[j]),
        forall|i: int|
            0 <= i < final(tasks)@.len() ==> !is_meant(#[trigger] final(tasks)@[i], target@)
                && old(tasks)@.contains(final(tasks)@[i]),
{
    let keep = |t: DaemonTask| !is_meant(t, target@);
    lemma_filter_members(old(tasks)@, keep);
    if keep(old(tasks)@[j]) {
        lemma_filter_keeps(old(tasks)@, keep, j);
    }
    assert forall|i: int| 0 <= i < final(tasks)@.len() implies !is_meant(
        #[trigger] final(tasks)@[i],
        target@,
    ) && old(tasks)@.contains(final(tasks)@[i]) by {
        assert(keep(old(tasks)@.filter(keep)[i]));
    }
    if forall|i: int| 0 <= i < old(tasks)@.len() ==> !is_meant(#[trigger] old(tasks)@[i], target@) {
        assert(forall|i: int| 0 <= i < old(tasks)@.len() ==> keep(#[trigger] old(tasks)@[i]));
    } else {
        let i = choose|i: int|
            0 <= i < old(tasks)@.len() && is_meant(#[trigger] old(tasks)@[i], target@);
        assert(!keep(old(tasks)@[i]));
    }
}

/// Removing by process takes out every task of that process and no other.
pub proof fn tasks_of_a_process_are_removed(
    state: &StateManager,
    tasks: &mut Vec<DaemonTask>,
    pid: u32,
    j: int,
)
    requires
        call_ensures(StateManager::remove_task_by_pid, (state, tasks, pid), ()),
        0 <= j < old(tasks)@.len(),
    ensures
        old(tasks)@[j].pid != pid ==> final(tasks)@.contains(old(tasks)@[j]),
        forall|i: int|
            0 <= i < final(tasks)@.len() ==> (#[trigger] final(tasks)@[i]).pid != pid
                && old(tasks)@.contains(final(tasks)@[i]),
{
    let keep = |t: DaemonTask| t.pid != pid;
    lemma_filter_members(old(tasks)@, keep);
    if keep(old(tasks)@[j]) {
        lemma_filter_keeps(old(tasks)@, keep, j);
    }
    assert forall|i: int| 0 <= i < final(tasks)@.len() implies (#[trigger] final(tasks)@[i]).pid
        != pid && old(tasks)@.contains(final(tasks)@[i]) by {
        assert(keep(old(tasks)@.filter(keep)[i]));
    }
}

/// The task that is found is the first that is meant, and one is found if any is
/// meant.
pub proof fn tasks_are_found(
    state: &StateManager,
    tasks: Vec<DaemonTask>,
    target: &str,
    r: Option<DaemonTask>,
)
    requires
        call_ensures(StateManager::find_task, (state, tasks, target), r),
    ensures
        r is None <==> forall|i: int|
            0 <= i < tasks@.len() ==> !is_meant(#[trigger] tasks@[i], target@),
        r matches Some(t) ==> exists|i: int|
            0 <= i < tasks@.len() && #[trigger] tasks@[i] == t && is_meant(t, target@) && forall|
                j: int,
            |
                0 <= j < i ==> !is_meant(#[trigger] tasks@[j], target@),
{
    first_meant_is_first(tasks@, target@);
}

/// Reading the list gives every task an identifier and changes nothing else;
/// the list has to be written if and only if a task had none.
pub proof fn tasks_are_loaded(
    state: &StateManager,
    stored: Vec<DaemonTask>,
    stamps: &Vec<u128>,
    process: u32,
    r: (Vec<DaemonTask>, bool),
    s: (Vec<DaemonTask>, bool),
    i: int,
)
    requires
        call_ensures(StateManager::load_tasks, (state, Some(stored), stamps, process), r),
        call_ensures(StateManager::load_tasks, (state, None, stamps, process), s),
    ensures
        s.0@.len() == 0 && !s.1,
        r.0@.len() == stored@.len(),
        r.1 <==> exists|j: int| 0 <= j < stored@.len() && (#[trigger] stored@[j]).id@.len() == 0,
        0 <= i < stored@.len() ==> {
            &&& r.0@[i].id@.len() > 0
            &&& stored@[i].id@.len() > 0 ==> r.0@[i] == stored@[i]
            &&& stored@[i].id@.len() == 0 ==> r.0@[i].id@ == "task_"@ + decimal(stamps@[i] as nat)
                + "_"@ + decimal(process as nat)
            &&& r.0@[i].name == stored@[i].name
            &&& r.0@[i].pid == stored@[i].pid
            &&& r.0@[i].enabled == stored@[i].enabled
            &&& r.0@[i].paused_until == stored@[i].paused_until
            &&& r.0@[i].task == stored@[i].task
        },
{
    if 0 <= i < stored@.len() {
        identifiers_are_filled_in(stored@[i], r.0@[i], stamps@[i] as nat, process as nat);
    }
}

/// A new task is enabled and does not rest; its identifier is made of the time
/// and the process.
pub proof fn tasks_are_new(
    id: String,
    name: Option<String>,
    pid: u32,
    task: TaskType,
    millis: u128,
    process: u32,
    r: DaemonTask,
    s: String,
    line: String,
    shown: &str,
)
    requires
        call_ensures(new_task, (id, name, pid, task), r),
        call_ensures(generate_task_id, (millis, process), s),
        call_ensures(started, (shown, pid), line),
    ensures
        r.id == id && r.name == name && r.pid == pid && r.task == task,
        r.enabled,
        r.paused_until is None,
        s@ == "task_"@ + decimal(millis as nat) + "_"@ + decimal(process as nat),
        line@ == "Started daemon "@ + shown@ + " with PID "@ + decimal(pid as nat),
{
}

/// A task rests as long as its pause has not come to an end, and is started
/// again if it is enabled and does not rest.
pub proof fn tasks_rest_and_start_again(task: &DaemonTask, now: i64, rests: bool, again: bool)
    requires
        call_ensures(is_paused_at, (task, now), rests),
        call_ensures(should_restart_at, (task, now), again),
    ensures
        rests <==> (task.paused_until matches Some(until) && now < until),
        again <==> task.enabled && !rests,
{
}

/// Whether `target` is the word for all tasks, in letters of either case.
pub open spec fn is_the_word_all(target: Seq<char>) -> bool {
    &&& target.len() == 3
    &&& target[0] == 'a' || target[0] == 'A'
    &&& target[1] == 'l' || target[1] == 'L'
    &&& target[2] == 'l' || target[2] == 'L'
}

/// Disabling all tasks ends all processes and leaves every task disabled and
/// else as it was; disabling one does so with the first that is meant and no
/// other.
pub proof fn tasks_are_disabled(
    state: &StateManager,
    tasks: &mut Vec<DaemonTask>,
    target: &str,
    r: Disabling,
    j: int,
)
    requires
        call_ensures(handle_disable, (state, tasks, target), r),
        0 <= j < old(tasks)@.len(),
    ensures
        final(tasks)@.len() == old(tasks)@.len(),
        is_the_word_all(target@) ==> {
            &&& r.changed
            &&& r.kill@.len() == old(tasks)@.len()
            &&& r.kill@[j] == old(tasks)@[j].pid
            &&& final(tasks)@[j] == (DaemonTask { enabled: false, ..old(tasks)@[j] })
            &&& r.message@ == "Disabled "@ + decimal(old(tasks)@.len()) + " daemon(s)."@
        },
        !is_the_word_all(target@) ==> {
            let first = is_meant(old(tasks)@[j], target@) && forall|i: int|
                0 <= i < j ==> !is_meant(#[trigger] old(tasks)@[i], target@);
            &&& first ==> r.kill@ == seq![old(tasks)@[j].pid] && final(tasks)@[j] == (DaemonTask {
                enabled: false,
                ..old(tasks)@[j]
            }) && r.message@ == "Disabled daemon "@ + target@
            &&& !first ==> final(tasks)@[j] == old(tasks)@[j]
            &&& r.changed <==> exists|i: int|
                0 <= i < old(tasks)@.len() && is_meant(#[trigger] old(tasks)@[i], target@)
            &&& !r.changed ==> r.kill@.len() == 0 && r.message@ == "No daemon found for "@ + target@
        },
{
    all_is_the_word_for_all(target@);
    first_meant_is_first(old(tasks)@, target@);
}

/// Deleting all tasks ends all processes and leaves none; deleting by a target
/// takes out every task that is meant and no other, and ends the process of the
/// first of them.
pub proof fn tasks_are_deleted(
    state: &StateManager,
    tasks: &mut Vec<DaemonTask>,
    target: &str,
    r: Deletion,
    j: int,
)
    requires
        call_ensures(handle_delete, (state, tasks, target), r),
        0 <= j < old(tasks)@.len(),
    ensures
        is_the_word_all(target@) ==> final(tasks)@.len() == 0 && (r matches Deletion::All {
            kill,
            message,
        } && kill@.len() == old(tasks)@.len() && kill@[j] == old(tasks)@[j].pid && message@
            == "Deleted "@ + decimal(old(tasks)@.len()) + " daemon(s)."@),
        !is_the_word_all(target@) ==> {
            let first = is_meant(old(tasks)@[j], target@) && forall|i: int|
                0 <= i < j ==> !is_meant(#[trigger] old(tasks)@[i], target@);
            &&& first ==> (r matches Deletion::Meant { pid } && pid == old(tasks)@[j].pid)
            &&& !is_meant(old(tasks)@[j], target@) ==> final(tasks)@.contains(old(tasks)@[j])
            &&& forall|i: int|
                0 <= i < final(tasks)@.len() ==> !is_meant(#[trigger] final(tasks)@[i], target@)
                    && old(tasks)@.contains(final(tasks)@[i])
            &&& r is Nobody <==> forall|i: int|
                0 <= i < old(tasks)@.len() ==> !is_meant(#[trigger] old(tasks)@[i], target@)
            &&& r matches Deletion::Nobody { message } ==> message@ == "No daemon found for "@
                + target@
        },
{
    all_is_the_word_for_all(target@);
    first_meant_is_first(old(tasks)@, target@);
    let keep = |t: DaemonTask| !is_meant(t, target@);
    lemma_filter_members(old(tasks)@, keep);
    if !is_the_word_all(target@) {
        if keep(old(tasks)@[j]) && first_meant(old(tasks)@, target@) is Some {
            lemma_filter_keeps(old(tasks)@, keep, j);
        }
        assert forall|i: int| 0 <= i < final(tasks)@.len() implies !is_meant(
            #[trigger] final(tasks)@[i],
            target@,
        ) && old(tasks)@.contains(final(tasks)@[i]) by {
            if first_meant(old(tasks)@, target@) is Some {
                assert(keep(old(tasks)@.filter(keep)[i]));
            }
        }
    }
}

/// A process is ended only if it is one of this program and was there; a failure
/// to end it names it.
pub proof fn processes_are_ended(pid: u32, is_afm: bool, ended: Option<bool>, r: Result<bool, String>)
    requires
        call_ensures(kill_pid, (pid, is_afm, ended), r),
    ensures
        r == Ok::<bool, String>(true) <==> is_afm && ended == Some(true),
        r is Err <==> is_afm && ended == Some(false),
        r matches Err(e) ==> e@ == "Failed to kill process "@ + decimal(pid as nat),
{
}

/// A task that was to be stopped leaves the list unless its process could not be
/// ended and still runs.
pub proof fn stopped_tasks_leave_the_list(
    task: &DaemonTask,
    killed: &Result<bool, String>,
    running: bool,
    r: (Option<String>, bool),
    target: &str,
    s: String,
)
    requires
        call_ensures(stop_outcome, (task, killed, running), r),
        call_ensures(deleted, (target, killed, running), s),
    ensures
        !r.1 <==> killed is Err && running,
        r.0 is None <==> killed is Err,
        *killed == Ok::<bool, String>(true) && task.name is Some ==> r.0->0@ == "Stopped daemon "@
            + task.name->0@ + " ("@ + decimal(task.pid as nat) + ")"@,
        *killed == Ok::<bool, String>(true) && task.name is None ==> r.0->0@ == "Stopped daemon "@
            + task.id@ + " ("@ + decimal(task.pid as nat) + ")"@,
        *killed == Ok::<bool, String>(false) ==> r.0->0@ == "No process found with PID "@ + decimal(
            task.pid as nat,
        ) + ", but removing from state anyway."@,
        *killed == Ok::<bool, String>(true) || killed is Err && !running ==> s@
            == "Deleted daemon "@ + target@,
        *killed == Ok::<bool, String>(false) || killed is Err && running ==> s@
            == "Removed daemon "@ + target@ + " from state, but process might still be running."@,
{
}

/// What is said of a task that was to go on or to rest, or that is not there.
pub proof fn outcomes_name_the_target(
    target: &str,
    found: bool,
    count: usize,
    task: &DaemonTask,
    a: String,
    b: String,
    c: String,
    d: String,
    e: String,
    f: &str,
)
    requires
        call_ensures(resumed, (target, found), a),
        call_ensures(paused, (target, found), b),
        call_ensures(no_task, (target,), c),
        call_ensures(no_daemon, (target,), d),
        call_ensures(imported, (count,), e),
        call_ensures(title_of, (task,), f),
    ensures
        found ==> a@ == "Resumed task "@ + target@ && b@ == "Paused task "@ + target@,
        !found ==> a@ == "No daemon found for "@ + target@ && b@ == "No daemon found for "@
            + target@,
        c@ == "No task found for "@ + target@,
        d@ == "No daemon found for "@ + target@,
        e@ == "Imported "@ + decimal(count as nat) + " task(s)."@,
        task.name matches Some(name) ==> f@ == name@,
        task.name is None ==> f@ == task.id@,
{
}

/// Searching a list without mending it changes nothing; mending gives an
/// identifier to every task and changes nothing else. There are as many lines as
/// issues, and none for a list in which nothing is wrong.
pub proof fn lists_are_searched(
    tasks: &mut Vec<DaemonTask>,
    running: &Vec<bool>,
    present: &Vec<bool>,
    repair: bool,
    stamps: &Vec<u128>,
    process: u32,
    r: (Vec<String>, bool),
    j: int,
)
    requires
        call_ensures(diagnose, (tasks, running, present, repair, stamps, process), r),
        0 <= j < old(tasks)@.len(),
    ensures
        final(tasks)@.len() == old(tasks)@.len(),
        !repair ==> final(tasks)@[j] == old(tasks)@[j],
        repair ==> final(tasks)@[j].id@.len() > 0 && final(tasks)@[j] == (DaemonTask {
            id: final(tasks)@[j].id,
            ..old(tasks)@[j]
        }),
        repair && old(tasks)@[j].id@.len() > 0 ==> final(tasks)@[j] == old(tasks)@[j],
        r.1 <==> repair && exists|i: int|
            0 <= i < old(tasks)@.len() && (#[trigger] old(tasks)@[i]).id@.len() == 0,
        old(tasks)@.len() == 1 ==> {
            let t = old(tasks)@[0];
            let a: int = if t.id@.len() == 0 {
                1
            } else {
                0
            };
            let b: int = if t.enabled && !running@[0] {
                1
            } else {
                0
            };
            let c: int = if present@[0] {
                0
            } else {
                1
            };
            r.0@.len() == a + b + c
        },
{
    if repair {
        identifiers_are_filled_in(
            old(tasks)@[j],
            final(tasks)@[j],
            stamps@[j] as nat,
            process as nat,
        );
    }
    let before = old(tasks)@;
    issues_come_task_by_task(before, final(tasks)@, running@, present@, j);
    if before.len() == 1 {
        assert(before.take(1) =~= before);
        assert(before.take(0) =~= seq![]);
        issues_are_told(before[0], final(tasks)@[0], running@[0], present@[0]);
        assert(texts(r.0@).len() == r.0@.len());
    }
}

/// The issues of one task more stand behind those of the others, a line for each
/// thing that is wrong with it.
pub proof fn issues_of_a_list(
    tasks: Seq<DaemonTask>,
    named: Seq<DaemonTask>,
    running: Seq<bool>,
    present: Seq<bool>,
)
    requires
        tasks.len() > 0,
    ensures
        all_issues(tasks, named, running, present) == all_issues(
            tasks.drop_last(),
            named,
            running,
            present,
        ) + issues(
            tasks.last(),
            named[tasks.len() - 1],
            running[tasks.len() - 1],
            present[tasks.len() - 1],
        ),
{
}

/// Mending drops a task if and only if it is disabled, has no process and lacks
/// a path, and only where mending was asked for; the list has to be written if
/// and only if something was mended.
pub proof fn lists_are_mended(
    tasks: &mut Vec<DaemonTask>,
    running: &Vec<bool>,
    present: &Vec<bool>,
    repair: bool,
    filled: bool,
    r: bool,
    j: int,
)
    requires
        call_ensures(handle_doctor, (tasks, running, present, repair, filled), r),
        0 <= j < old(tasks)@.len(),
    ensures
        !repair ==> final(tasks)@ == old(tasks)@ && !r,
        r <==> repair && (filled || final(tasks)@.len() != old(tasks)@.len()),
        old(tasks)@[j].enabled || running@[j] || present@[j] ==> final(tasks)@.contains(
            old(tasks)@[j],
        ),
        forall|t: DaemonTask| #[trigger] final(tasks)@.contains(t) ==> old(tasks)@.contains(t),
        repair && old(tasks)@.len() == 1 && !old(tasks)@[0].enabled && !running@[0] && !present@[0]
            ==> final(tasks)@.len() == 0,
{
    mending_keeps_what_works(old(tasks)@, running@, present@);
    if old(tasks)@.len() == 1 {
        dead_tasks_are_dropped(old(tasks)@, running@, present@, 0);
        assert(old(tasks)@.take(1) =~= old(tasks)@);
        assert(old(tasks)@.take(0) =~= seq![]);
    }
}

/// Dropping dead tasks keeps those that are worth it, and says whether any went.
pub proof fn dead_tasks_leave(
    tasks: &mut Vec<DaemonTask>,
    running: &Vec<bool>,
    present: &Vec<bool>,
    r: bool,
    j: int,
)
    requires
        call_ensures(drop_dead_tasks, (tasks, running, present), r),
        0 <= j < old(tasks)@.len(),
    ensures
        r <==> final(tasks)@.len() != old(tasks)@.len(),
        old(tasks)@[j].enabled || running@[j] || present@[j] ==> final(tasks)@.contains(
            old(tasks)@[j],
        ),
        !old(tasks)@[j].enabled && !running@[j] && !present@[j] ==> r,
        forall|t: DaemonTask| #[trigger] final(tasks)@.contains(t) ==> old(tasks)@.contains(t),
{
    mending_keeps_what_works(old(tasks)@, running@, present@);
    if !old(tasks)@[j].enabled && !running@[j] && !present@[j] {
        lemma_one_less(old(tasks)@, running@, present@, j);
    }
}

proof fn lemma_one_less(tasks: Seq<DaemonTask>, running: Seq<bool>, present: Seq<bool>, j: int)
    requires
        0 <= j < tasks.len(),
        !tasks[j].enabled && !running[j] && !present[j],
    ensures
        worth_keeping(tasks, running, present).len() < tasks.len(),
    decreases tasks.len(),
{
    let front = tasks.drop_last();
    mending_keeps_what_works(front, running, present);
    if j < tasks.len() - 1 {
        assert(front[j] == tasks[j]);
        lemma_one_less(front, running, present, j);
    }
}

/// The paths of a task are there if its folder is, and its destination if that
/// is on this machine; a log is put aside if it has grown beyond the limit; and
/// the search ends with what it found.
pub proof fn paths_and_logs_are_looked_at(
    task: TaskType,
    first: bool,
    dest: bool,
    extension: Option<&str>,
    size: u64,
    max: u64,
    repair: bool,
    found: usize,
    there: bool,
    log: bool,
    grown: bool,
    lines: Vec<String>,
)
    requires
        call_ensures(task_path_exists, (&task, first, dest), there),
        call_ensures(is_log, (extension,), log),
        call_ensures(rotate_logs, (size, max), grown),
        call_ensures(closing_lines, (repair, found), lines),
    ensures
        there <==> first && ((task matches TaskType::Mirror { remote, .. } && remote is None)
            ==> dest),
        log <==> (extension matches Some(e) && e@ == "log"@),
        grown <==> max < size,
        repair <==> lines@.len() == 2,
        !repair <==> lines@.len() == 1,
        found == 0 ==> lines@.last()@ == "No issues found."@,
        found > 0 ==> lines@.last()@ == "Found "@ + decimal(found as nat) + " issue(s)."@,
        repair ==> lines@[0]@ == "Repair complete."@,
{
    search_ends_with_the_number_of_issues(repair, found as nat);
    let t = texts(lines@);
    assert(t.len() == lines@.len());
    assert(t.last() == lines@.last()@);
    assert(t[0] == lines@[0]@);
}

/// The state lies in the program's directory below the home that is given, or
/// below the current directory; its files lie in it, and the logs below it.
pub proof fn state_is_kept_below_the_home(
    home: Option<Vec<u8>>,
    text: Seq<char>,
    platform: Platform,
    state: StateManager,
    pid: u32,
    list: Vec<u8>,
    history: Vec<u8>,
    undo: Vec<u8>,
    log: Vec<u8>,
    logs: Vec<u8>,
    dir: Vec<u8>,
    startup: Vec<u8>,
    tray: Vec<u8>,
)
    requires
        home matches Some(bytes) ==> bytes@ == encode_utf8(text),
        home is None ==> text == "."@,
        call_ensures(StateManager::from_home, (home, platform), state),
        call_ensures(StateManager::state_path, (&state,), list),
        call_ensures(StateManager::history_path, (&state,), history),
        call_ensures(StateManager::undo_path, (&state,), undo),
        call_ensures(StateManager::log_path, (&state, pid), log),
        call_ensures(StateManager::log_dir, (&state,), logs),
        call_ensures(StateManager::config_dir, (&state,), dir),
        call_ensures(StateManager::startup_script_path, (&state,), startup),
        call_ensures(StateManager::tray_script_path, (&state,), tray),
    ensures
        ({
            let base = joined(platform, text, "autofilemgrd"@);
            &&& dir@ == encode_utf8(base)
            &&& list@ == encode_utf8(joined(platform, base, "state.json"@))
            &&& history@ == encode_utf8(joined(platform, base, "history.jsonl"@))
            &&& undo@ == encode_utf8(joined(platform, base, "undo.jsonl"@))
            &&& logs@ == encode_utf8(joined(platform, base, "logs"@))
            &&& log@ == encode_utf8(
                joined(platform, joined(platform, base, "logs"@), decimal(pid as nat) + ".log"@),
            )
            &&& startup@ == encode_utf8(joined(platform, base, "startup.vbs"@))
            &&& tray@ == encode_utf8(joined(platform, base, "tray.ps1"@))
        }),
{
    let base = joined(platform, text, "autofilemgrd"@);
    text_is_joined_as_text(platform, text, "autofilemgrd"@);
    text_is_joined_as_text(platform, base, "state.json"@);
    text_is_joined_as_text(platform, base, "history.jsonl"@);
    text_is_joined_as_text(platform, base, "undo.jsonl"@);
    text_is_joined_as_text(platform, base, "logs"@);
    text_is_joined_as_text(platform, base, "startup.vbs"@);
    text_is_joined_as_text(platform, base, "tray.ps1"@);
    text_is_joined_as_text(platform, joined(platform, base, "logs"@), decimal(pid as nat) + ".log"@);
}

} // verus!
