//! Starting, stopping, disabling and deleting daemons: what becomes of the list
//! of tasks, which processes are to end, and what is said about it.

use vstd::prelude::*;
use vstd::string::*;

use crate::clock::is_time;
use crate::clock::now;
use crate::daemon::{DaemonTask, StateManager, TaskType};
use crate::daemon::{first_meant, is_meant, rests};
use crate::daemon::{first_meant_is_first, is_paused_at, task_matches};
use crate::number::decimal;
use crate::number::to_decimal;
use crate::text::lowered;
use crate::text::{same_text, three_parts, to_lower, two_parts};

verus! {

/// A task as it joins the list, when process `pid` has begun to carry it out.
pub fn new_task(id: String, name: Option<String>, pid: u32, task: TaskType) -> (r: DaemonTask)
    ensures
        r == (DaemonTask { id, name, pid, enabled: true, paused_until: None, task }),
{
    DaemonTask { id, name, pid, enabled: true, paused_until: None, task }
}

/// What is said of a daemon that was started.
pub fn started(id: &str, pid: u32) -> (r: String)
    ensures
        r@ == "Started daemon "@ + id@ + " with PID "@ + decimal(pid as nat),
{
    let mut out = three_parts("Started daemon ", id, " with PID ");
    out.append(to_decimal(pid as u128).as_str());
    out
}

/// What comes of the attempt to end process `pid`. `is_afm` says whether the
/// process is one of this program, and `ended` whether it could be ended, if
/// it was found; a process of another program counts as none.
pub fn kill_pid(pid: u32, is_afm: bool, ended: Option<bool>) -> (r: Result<bool, String>)
    ensures
        if !is_afm {
            r == Ok::<bool, String>(false)
        } else {
            match ended {
                None => r == Ok::<bool, String>(false),
                Some(true) => r == Ok::<bool, String>(true),
                Some(false) => r is Err && r->Err_0@ == "Failed to kill process "@ + decimal(
                    pid as nat,
                ),
            }
        },
{
    if !is_afm {
        return Ok(false);
    }
    match ended {
        None => Ok(false),
        Some(true) => Ok(true),
        Some(false) => Err(two_parts("Failed to kill process ", to_decimal(pid as u128).as_str())),
    }
}

/// What a task is called: its name, or its identifier if it has none.
pub open spec fn title(t: DaemonTask) -> Seq<char> {
    match t.name {
        Some(name) => name@,
        None => t.id@,
    }
}

/// What a task is called: its name, or its identifier if it has none.
pub fn title_of(task: &DaemonTask) -> (r: &str)
    ensures
        r@ == title(*task),
{
    match &task.name {
        Some(name) => name.as_str(),
        None => task.id.as_str(),
    }
}

/// What is said where `target` means no task.
pub open spec fn nobody(target: Seq<char>) -> Seq<char> {
    "No daemon found for "@ + target
}

/// What is said where `target` means no task.
pub fn no_daemon(target: &str) -> (r: String)
    ensures
        r@ == nobody(target@),
{
    two_parts("No daemon found for ", target)
}

/// What comes of the attempt to stop a task: what is said, if anything, and
/// whether the task leaves the list. It stays there only if its process could
/// not be ended and is still running.
pub fn stop_outcome(task: &DaemonTask, killed: &Result<bool, String>, running: bool) -> (r: (
    Option<String>,
    bool,
))
    ensures
        match *killed {
            Ok(true) => {
                &&& r.1
                &&& r.0 is Some
                &&& r.0->0@ == "Stopped daemon "@ + title(*task) + " ("@ + decimal(task.pid as nat)
                    + ")"@
            },
            Ok(false) => {
                &&& r.1
                &&& r.0 is Some
                &&& r.0->0@ == "No process found with PID "@ + decimal(task.pid as nat)
                    + ", but removing from state anyway."@
            },
            Err(_) => r.0 is None && r.1 == !running,
        },
{
    let pid = to_decimal(task.pid as u128);
    match killed {
        Ok(true) => {
            let mut out = three_parts("Stopped daemon ", title_of(task), " (");
            out.append(pid.as_str());
            out.append(")");
            (Some(out), true)
        },
        Ok(false) => {
            let out = three_parts(
                "No process found with PID ",
                pid.as_str(),
                ", but removing from state anyway.",
            );
            (Some(out), true)
        },
        Err(_) => (None, !running),
    }
}

/// Whether `target` means all tasks at once.
pub open spec fn is_all(target: Seq<char>) -> bool {
    lowered(target) == "all"@
}

fn means_all(target: &str) -> (r: bool)
    ensures
        r == is_all(target@),
{
    same_text(to_lower(target).as_str(), "all")
}

/// The processes of the tasks.
pub open spec fn pids(tasks: Seq<DaemonTask>) -> Seq<u32> {
    tasks.map_values(|t: DaemonTask| t.pid)
}

fn all_pids(tasks: &Vec<DaemonTask>) -> (r: Vec<u32>)
    ensures
        r@ == pids(tasks@),
{
    let mut out: Vec<u32> = Vec::new();
    let mut i: usize = 0;
    while i < tasks.len()
        invariant
            i <= tasks@.len(),
            out@ == pids(tasks@.take(i as int)),
        decreases tasks.len() - i,
    {
        out.push(tasks[i].pid);
        assert(pids(tasks@.take(i + 1)) =~= pids(tasks@.take(i as int)).push(tasks@[i as int].pid));
        i = i + 1;
    }
    assert(tasks@.take(i as int) =~= tasks@);
    out
}

/// The process of the first task that `target` means.
fn first_pid(tasks: &Vec<DaemonTask>, target: &str) -> (r: Option<u32>)
    ensures
        match first_meant(tasks@, target@) {
            Some(i) => 0 <= i < tasks@.len() && r == Some(tasks@[i].pid),
            None => r is None,
        },
{
    let mut i: usize = 0;
    while i < tasks.len()
        invariant
            i <= tasks@.len(),
            forall|j: int| 0 <= j < i ==> !is_meant(#[trigger] tasks@[j], target@),
        decreases tasks.len() - i,
    {
        if task_matches(&tasks[i], target) {
            proof {
                first_meant_is_first(tasks@, target@);
            }
            return Some(tasks[i].pid);
        }
        i = i + 1;
    }
    proof {
        first_meant_is_first(tasks@, target@);
    }
    None
}

/// What disabling tasks comes to.
pub struct Disabling {
    /// The processes that are to end, whether or not they can be ended.
    pub kill: Vec<u32>,
    /// What is said afterwards.
    pub message: String,
    /// Whether the list has changed, and has to be written.
    pub changed: bool,
}

/// Disables the first task that `target` means, or all tasks.
pub fn handle_disable(state: &StateManager, tasks: &mut Vec<DaemonTask>, target: &str) -> (r:
    Disabling)
    ensures
        if is_all(target@) {
            &&& r.kill@ == pids(old(tasks)@)
            &&& final(tasks)@ == old(tasks)@.map_values(
                |t: DaemonTask| (DaemonTask { enabled: false, ..t }),
            )
            &&& r.message@ == "Disabled "@ + decimal(old(tasks)@.len()) + " daemon(s)."@
            &&& r.changed
        } else {
            match first_meant(old(tasks)@, target@) {
                Some(i) => {
                    &&& 0 <= i < old(tasks)@.len()
                    &&& r.kill@ == seq![old(tasks)@[i].pid]
                    &&& final(tasks)@ == old(tasks)@.update(
                        i,
                        DaemonTask { enabled: false, ..old(tasks)@[i] },
                    )
                    &&& r.message@ == "Disabled daemon "@ + target@
                    &&& r.changed
                },
                None => {
                    &&& r.kill@ == Seq::<u32>::empty()
                    &&& final(tasks)@ == old(tasks)@
                    &&& r.message@ == nobody(target@)
                    &&& !r.changed
                },
            }
        },
{
    if means_all(target) {
        let kill = all_pids(tasks);
        let count: usize = state.set_all_tasks_enabled(tasks, false);
        let message = three_parts("Disabled ", to_decimal(count as u128).as_str(), " daemon(s).");
        return Disabling { kill, message, changed: true };
    }
    let mut kill: Vec<u32> = Vec::new();
    match first_pid(tasks, target) {
        Some(pid) => {
            kill.push(pid);
            let changed = state.set_task_enabled(tasks, target, false);
            Disabling { kill, message: two_parts("Disabled daemon ", target), changed }
        },
        None => Disabling { kill, message: no_daemon(target), changed: false },
    }
}

/// What deleting tasks comes to.
pub enum Deletion {
    /// All tasks are gone: these processes are to end, whether or not they can
    /// be ended, the program is no longer to start with the system, and this is
    /// said.
    All { kill: Vec<u32>, message: String },
    /// The tasks that were meant are gone: the process of the first of them is
    /// to end.
    Meant { pid: u32 },
    /// No task was meant, and this is said.
    Nobody { message: String },
}

/// Deletes the tasks that `target` means, or all tasks.
pub fn handle_delete(state: &StateManager, tasks: &mut Vec<DaemonTask>, target: &str) -> (r:
    Deletion)
    ensures
        if is_all(target@) {
            &&& final(tasks)@ == Seq::<DaemonTask>::empty()
            &&& r matches Deletion::All { kill, message } && kill@ == pids(old(tasks)@) && message@
                == "Deleted "@ + decimal(old(tasks)@.len()) + " daemon(s)."@
        } else {
            match first_meant(old(tasks)@, target@) {
                Some(i) => {
                    &&& 0 <= i < old(tasks)@.len()
                    &&& final(tasks)@ == old(tasks)@.filter(
                        |t: DaemonTask| !is_meant(t, target@),
                    )
                    &&& r matches Deletion::Meant { pid } && pid == old(tasks)@[i].pid
                },
                None => {
                    &&& final(tasks)@ == old(tasks)@
                    &&& r matches Deletion::Nobody { message } && message@ == nobody(target@)
                },
            }
        },
{
    if means_all(target) {
        let kill = all_pids(tasks);
        let count: usize = state.remove_all_tasks(tasks);
        let message = three_parts("Deleted ", to_decimal(count as u128).as_str(), " daemon(s).");
        return Deletion::All { kill, message };
    }
    match first_pid(tasks, target) {
        Some(pid) => {
            state.remove_task(tasks, target);
            Deletion::Meant { pid }
        },
        None => Deletion::Nobody { message: no_daemon(target) },
    }
}

/// What is said when a task was deleted. `running` says whether its process is
/// still there after an attempt to end it that failed.
pub fn deleted(target: &str, killed: &Result<bool, String>, running: bool) -> (r: String)
    ensures
        r@ == if (match *killed {
            Ok(ended) => ended,
            Err(_) => !running,
        }) {
            "Deleted daemon "@ + target@
        } else {
            "Removed daemon "@ + target@ + " from state, but process might still be running."@
        },
{
    let ended = match killed {
        Ok(ended) => *ended,
        Err(_) => !running,
    };
    if ended {
        two_parts("Deleted daemon ", target)
    } else {
        three_parts(
            "Removed daemon ",
            target,
            " from state, but process might still be running.",
        )
    }
}

/// Whether a task is started again when all are, at the time `now`.
pub open spec fn restarts(task: DaemonTask, now: int) -> bool {
    task.enabled && !rests(task, now)
}

/// Whether a task is started again when all are, at the time `now`.
pub fn should_restart_at(task: &DaemonTask, now: i64) -> (r: bool)
    ensures
        r == restarts(*task, now as int),
{
    task.enabled && !is_paused_at(task, now)
}

/// Whether a task is started again when all are, now.
pub fn should_restart(task: &DaemonTask) -> (r: bool)
    ensures
        exists|time: int| is_time(time) && r == #[trigger] restarts(*task, time),
        !task.enabled ==> !r,
        task.enabled && task.paused_until is None ==> r,
{
    let time: i64 = now();
    let r = should_restart_at(task, time);
    assert(r == restarts(*task, time as int));
    r
}

/// What is said when a task was to go on.
pub fn resumed(target: &str, found: bool) -> (r: String)
    ensures
        r@ == if found {
            "Resumed task "@ + target@
        } else {
            nobody(target@)
        },
{
    if found {
        two_parts("Resumed task ", target)
    } else {
        no_daemon(target)
    }
}

/// What is said when a task was to rest.
pub fn paused(target: &str, found: bool) -> (r: String)
    ensures
        r@ == if found {
            "Paused task "@ + target@
        } else {
            nobody(target@)
        },
{
    if found {
        two_parts("Paused task ", target)
    } else {
        no_daemon(target)
    }
}

/// The message about a task that is to be used but is not there.
pub fn no_task(target: &str) -> (r: String)
    ensures
        r@ == "No task found for "@ + target@,
{
    two_parts("No task found for ", target)
}

/// What is said when tasks were taken over from a file.
pub fn imported(count: usize) -> (r: String)
    ensures
        r@ == "Imported "@ + decimal(count as nat) + " task(s)."@,
{
    three_parts("Imported ", to_decimal(count as u128).as_str(), " task(s).")
}

/// Once all tasks are disabled, none of them is started again.
pub proof fn disabled_tasks_stay_down(tasks: Seq<DaemonTask>, now: int)
    ensures
        ({
            let after = tasks.map_values(|t: DaemonTask| (DaemonTask { enabled: false, ..t }));
            forall|i: int|
                0 <= i < after.len() ==> !restarts(#[trigger] after[i], now)
        }),
{
}

} // verus!
