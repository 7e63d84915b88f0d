//! The tasks that daemons carry out, and the list of them that is kept on
//! disk. Every operation on the list takes the list as it was read and leaves
//! it as it is to be written.

use vstd::prelude::*;
use vstd::string::*;
use vstd::utf8::*;

use crate::clock::is_time;
use crate::clock::now;
use crate::number::decimal;
use crate::number::to_decimal;
use crate::paths::{Platform, join};
use crate::paths::{joined_bytes, opt_bytes};
use crate::policy::ConflictPolicy;
use crate::text::opt_text;
use crate::text::same_text;

verus! {

/// What a daemon does.
#[derive(Clone, Debug)]
pub enum TaskType {
    /// Unpacks the archives that appear in a folder.
    Unzip { path: String, delete: bool, conflict: ConflictPolicy, stable_secs: u64 },
    /// Keeps a copy of a folder, here or on another machine.
    Mirror {
        src: String,
        dest: String,
        remote: Option<String>,
        port: Option<u16>,
        use_rsync: bool,
        conflict: ConflictPolicy,
        stable_secs: u64,
        included: Vec<String>,
        excluded: Vec<String>,
    },
    /// Moves the files of a folder to where the first rule that fits says.
    Sort { path: String, rules: Vec<String>, conflict: ConflictPolicy, stable_secs: u64 },
    /// Deletes or moves away the files of a folder that have grown old.
    Clean {
        path: String,
        older_than_days: u64,
        move_to: Option<String>,
        remote: Option<String>,
        port: Option<u16>,
        use_rsync: bool,
        empty_dirs: bool,
        conflict: ConflictPolicy,
    },
}

/// A task, and the process that carries it out.
#[derive(Clone, Debug)]
pub struct DaemonTask {
    pub id: String,
    pub name: Option<String>,
    pub pid: u32,
    pub enabled: bool,
    pub paused_until: Option<i64>,
    pub task: TaskType,
}

/// Something that happened, for the record.
#[derive(Clone, Debug)]
pub struct HistoryEvent {
    pub ts: i64,
    pub task: Option<String>,
    pub level: String,
    pub message: String,
}

/// Something that can be taken back.
#[derive(Clone, Debug)]
pub enum UndoEvent {
    /// The file `src` was moved to `dest`.
    Move { src: String, dest: String },
}

/// The seconds for which a file has to stay the same, for a task that does not
/// say.
pub fn default_stable_secs() -> (r: u64)
    ensures
        r == 2,
{
    2
}

/// Whether a task is enabled that does not say.
pub fn default_enabled() -> (r: bool)
    ensures
        r,
{
    true
}

/// The identifier of a task that process `process` made `millis` milliseconds
/// after the epoch.
pub open spec fn task_id(millis: nat, process: nat) -> Seq<char> {
    "task_"@ + decimal(millis) + "_"@ + decimal(process)
}

/// Makes an identifier for a new task out of the time, in milliseconds since
/// the epoch, and the process that makes it.
pub fn generate_task_id(millis: u128, process: u32) -> (r: String)
    ensures
        r@ == task_id(millis as nat, process as nat),
{
    let mut out = "task_".to_owned();
    out.append(to_decimal(millis).as_str());
    out.append("_");
    out.append(to_decimal(process as u128).as_str());
    out
}

/// Whether `target` means the task `t`: by its identifier, by its name, or by
/// the number of its process.
pub open spec fn is_meant(t: DaemonTask, target: Seq<char>) -> bool {
    ||| t.id@ == target
    ||| opt_text(t.name) == Some(target)
    ||| decimal(t.pid as nat) == target
}

/// Whether `target` means the task.
pub fn task_matches(task: &DaemonTask, target: &str) -> (r: bool)
    ensures
        r == is_meant(*task, target@),
{
    let named = match &task.name {
        Some(name) => same_text(name.as_str(), target),
        None => false,
    };
    same_text(task.id.as_str(), target) || named || same_text(
        to_decimal(task.pid as u128).as_str(),
        target,
    )
}

/// Whether the task still rests at the time `now`.
pub open spec fn rests(t: DaemonTask, now: int) -> bool {
    t.paused_until matches Some(until) && until > now
}

/// Whether the task still rests at the time `now`, in seconds since the epoch.
pub fn is_paused_at(task: &DaemonTask, now: i64) -> (r: bool)
    ensures
        r == rests(*task, now as int),
{
    match task.paused_until {
        Some(until) => until > now,
        None => false,
    }
}

/// Whether the task rests now. One that was never told to rest does not.
pub fn is_paused(task: &DaemonTask) -> (r: bool)
    ensures
        exists|time: int| is_time(time) && r == #[trigger] rests(*task, time),
        task.paused_until is None ==> !r,
{
    let time: i64 = now();
    let r = is_paused_at(task, time);
    assert(r == rests(*task, time as int));
    r
}

/// The position of the first task that `target` means.
pub open spec fn first_meant(tasks: Seq<DaemonTask>, target: Seq<char>) -> Option<int>
    decreases tasks.len(),
{
    if tasks.len() == 0 {
        None
    } else {
        match first_meant(tasks.drop_last(), target) {
            Some(i) => Some(i),
            None => if is_meant(tasks.last(), target) {
                Some(tasks.len() - 1)
            } else {
                None
            },
        }
    }
}

/// The position of the first task that `target` means is one that it means,
/// and no earlier one is; there is none only if it means no task.
pub proof fn first_meant_is_first(tasks: Seq<DaemonTask>, target: Seq<char>)
    ensures
        match first_meant(tasks, target) {
            Some(i) => 0 <= i < tasks.len() && is_meant(tasks[i], target) && forall|j: int|
                0 <= j < i ==> !is_meant(#[trigger] tasks[j], target),
            None => forall|j: int|
                0 <= j < tasks.len() ==> !is_meant(#[trigger] tasks[j], target),
        },
    decreases tasks.len(),
{
    if tasks.len() > 0 {
        let front = tasks.drop_last();
        first_meant_is_first(front, target);
        assert(forall|j: int| 0 <= j < front.len() ==> front[j] == #[trigger] tasks[j]);
    }
}

/// The position of the first task that `target` means.
fn position(tasks: &Vec<DaemonTask>, target: &str) -> (r: Option<usize>)
    ensures
        match first_meant(tasks@, target@) {
            Some(i) => r is Some && r->0 == i && 0 <= i < tasks@.len(),
            None => r is None,
        },
{
    let mut i: usize = 0;
    while i < tasks.len()
        invariant
            i <= tasks@.len(),
            first_meant(tasks@.take(i as int), target@) is None,
        decreases tasks.len() - i,
    {
        assert(tasks@.take(i + 1).drop_last() =~= tasks@.take(i as int));
        if task_matches(&tasks[i], target) {
            proof {
                lemma_first_meant_extends(tasks@, target@, i + 1);
            }
            return Some(i);
        }
        i = i + 1;
    }
    assert(tasks@.take(i as int) =~= tasks@);
    None
}

/// Tasks further on do not change which one is meant first.
proof fn lemma_first_meant_extends(tasks: Seq<DaemonTask>, target: Seq<char>, k: int)
    requires
        0 <= k <= tasks.len(),
        first_meant(tasks.take(k), target) is Some,
    ensures
        first_meant(tasks, target) == first_meant(tasks.take(k), target),
    decreases tasks.len() - k,
{
    if k == tasks.len() {
        assert(tasks.take(k) =~= tasks);
    } else {
        assert(tasks.take(k + 1).drop_last() =~= tasks.take(k));
        lemma_first_meant_extends(tasks, target, k + 1);
    }
}

/// One more element, kept or dropped.
proof fn lemma_filter_push<A>(s: Seq<A>, x: A, keep: spec_fn(A) -> bool)
    ensures
        s.push(x).filter(keep) == if keep(x) {
            s.filter(keep).push(x)
        } else {
            s.filter(keep)
        },
{
    reveal(Seq::filter);
    assert(s.push(x).drop_last() =~= s);
}

/// Keeps the tasks on which `test` says so, in their order.
fn keep_where<F: Fn(&DaemonTask) -> bool>(
    tasks: &mut Vec<DaemonTask>,
    test: F,
    Ghost(keep): Ghost<spec_fn(DaemonTask) -> bool>,
)
    requires
        forall|t: &DaemonTask| #[trigger] test.requires((t,)),
        forall|t: &DaemonTask, b: bool| test.ensures((t,), b) ==> b == keep(*t),
    ensures
        final(tasks)@ == old(tasks)@.filter(keep),
{
    let mut all: Vec<DaemonTask> = Vec::new();
    std::mem::swap(&mut all, tasks);
    let ghost before = all@;
    proof {
        reveal(Seq::filter);
    }
    for t in it: all
        invariant
            it.seq() == before,
            tasks@ == before.take(it.index() as int).filter(keep),
            forall|t: &DaemonTask| #[trigger] test.requires((t,)),
            forall|t: &DaemonTask, b: bool| test.ensures((t,), b) ==> b == keep(*t),
    {
        proof {
            lemma_filter_push(before.take(it.index() as int), t, keep);
            assert(before.take(it.index() + 1) =~= before.take(it.index() as int).push(t));
        }
        if test(&t) {
            tasks.push(t);
        }
    }
    assert(before.take(before.len() as int) =~= before);
}

/// Whether the task `t` stays when `task` joins the list: it does unless the
/// two share a process or an identifier.
pub open spec fn stays_beside(t: DaemonTask, task: DaemonTask) -> bool {
    t.pid != task.pid && t.id@ != task.id@
}

/// The task `t`, with an identifier made from the time `millis` and the process
/// `process` if it had none.
pub open spec fn has_id_filled(before: DaemonTask, after: DaemonTask, millis: nat, process: nat) -> bool {
    if before.id@.len() == 0 {
        &&& after.id@ == task_id(millis, process)
        &&& after == (DaemonTask { id: after.id, ..before })
    } else {
        after == before
    }
}

/// Whether no two tasks share a process or an identifier.
pub open spec fn distinct(tasks: Seq<DaemonTask>) -> bool {
    forall|i: int, j: int|
        0 <= i < j < tasks.len() ==> stays_beside(#[trigger] tasks[i], #[trigger] tasks[j])
}

/// The directory that the state is kept in, under the user's directory for
/// configuration, or under the current directory if there is none.
pub open spec fn state_dir(platform: Platform, home: Option<Seq<u8>>) -> Seq<u8> {
    match home {
        Some(home) => joined_bytes(platform, home, "autofilemgrd"@),
        None => joined_bytes(platform, encode_utf8("."@), "autofilemgrd"@),
    }
}

/// The user's directory for configuration, by `dirs::config_dir`, as the bytes
/// in which the system encodes its path; these need not be text. It depends on
/// the environment, and nothing is claimed of it.
#[verifier::external_body]
fn config_home() -> (r: Option<Vec<u8>>) {
    match dirs::config_dir() {
        Some(path) => Some(path.into_os_string().into_encoded_bytes()),
        None => None,
    }
}

/// The directory that holds the list of tasks, the records and the logs.
pub struct StateManager {
    config_dir: Vec<u8>,
    platform: Platform,
}

impl StateManager {
    /// The path of the directory, in the encoding of the system.
    pub closed spec fn dir(self) -> Seq<u8> {
        self.config_dir@
    }

    /// The platform that the directory is on.
    pub closed spec fn on(self) -> Platform {
        self.platform
    }

    /// The path of the file `name` in the directory.
    pub open spec fn file(self, name: Seq<char>) -> Seq<u8> {
        joined_bytes(self.on(), self.dir(), name)
    }

    /// The path of the log of process `pid`.
    pub open spec fn log(self, pid: nat) -> Seq<u8> {
        joined_bytes(self.on(), self.file("logs"@), decimal(pid) + ".log"@)
    }

    /// Keeps the state under the user's directory for configuration, or under
    /// the current directory if there is none.
    pub fn new(platform: Platform) -> (r: StateManager)
        ensures
            r.on() == platform,
            exists|home: Option<Seq<u8>>| r.dir() == #[trigger] state_dir(platform, home),
    {
        let home = config_home();
        let ghost found = opt_bytes(home);
        let state = StateManager::from_home(home, platform);
        assert(state.dir() == state_dir(platform, found));
        state
    }

    /// Keeps the state under the given directory, in the encoding of the system,
    /// or under the current directory if there is none.
    pub fn from_home(home: Option<Vec<u8>>, platform: Platform) -> (r: StateManager)
        ensures
            r.on() == platform,
            r.dir() == state_dir(platform, opt_bytes(home)),
    {
        let config_dir = match home {
            Some(home) => join(platform, home.as_slice(), "autofilemgrd"),
            None => join(platform, ".".as_bytes(), "autofilemgrd"),
        };
        StateManager { config_dir, platform }
    }

    /// The directory.
    pub fn config_dir(&self) -> (r: Vec<u8>)
        ensures
            r@ == self.dir(),
    {
        self.config_dir.clone()
    }

    /// The file that holds the list of tasks.
    pub fn state_path(&self) -> (r: Vec<u8>)
        ensures
            r@ == self.file("state.json"@),
    {
        join(self.platform, self.config_dir.as_slice(), "state.json")
    }

    /// The file that holds the record of what happened.
    pub fn history_path(&self) -> (r: Vec<u8>)
        ensures
            r@ == self.file("history.jsonl"@),
    {
        join(self.platform, self.config_dir.as_slice(), "history.jsonl")
    }

    /// The file that holds what can be taken back.
    pub fn undo_path(&self) -> (r: Vec<u8>)
        ensures
            r@ == self.file("undo.jsonl"@),
    {
        join(self.platform, self.config_dir.as_slice(), "undo.jsonl")
    }

    /// The script that the system runs at login.
    pub fn startup_script_path(&self) -> (r: Vec<u8>)
        ensures
            r@ == self.file("startup.vbs"@),
    {
        join(self.platform, self.config_dir.as_slice(), "startup.vbs")
    }

    /// The script that sits in the tray.
    pub fn tray_script_path(&self) -> (r: Vec<u8>)
        ensures
            r@ == self.file("tray.ps1"@),
    {
        join(self.platform, self.config_dir.as_slice(), "tray.ps1")
    }

    /// The directory that holds the logs.
    pub fn log_dir(&self) -> (r: Vec<u8>)
        ensures
            r@ == self.file("logs"@),
    {
        join(self.platform, self.config_dir.as_slice(), "logs")
    }

    /// The log of process `pid`.
    pub fn log_path(&self, pid: u32) -> (r: Vec<u8>)
        ensures
            r@ == self.log(pid as nat),
    {
        let mut name = to_decimal(pid as u128);
        name.append(".log");
        join(self.platform, self.log_dir().as_slice(), name.as_str())
    }

    /// Takes the list as it was read, or none where there is no file, and gives
    /// an identifier to every task that has none: the task at position `i` is
    /// named after the time `stamps[i]`. The flag says whether any task was
    /// changed, so that the list has to be written.
    pub fn load_tasks(
        &self,
        stored: Option<Vec<DaemonTask>>,
        stamps: &Vec<u128>,
        process: u32,
    ) -> (r: (Vec<DaemonTask>, bool))
        requires
            stored matches Some(tasks) ==> tasks@.len() <= stamps@.len(),
        ensures
            match stored {
                None => r.0@ == Seq::<DaemonTask>::empty() && !r.1,
                Some(tasks) => {
                    &&& r.0@.len() == tasks@.len()
                    &&& forall|i: int|
                        0 <= i < tasks@.len() ==> has_id_filled(
                            #[trigger] tasks@[i],
                            r.0@[i],
                            stamps@[i] as nat,
                            process as nat,
                        )
                    &&& r.1 == exists|i: int|
                        0 <= i < tasks@.len() && (#[trigger] tasks@[i]).id@.len() == 0
                },
            },
    {
        let mut tasks = match stored {
            None => {
                return (Vec::new(), false);
            },
            Some(tasks) => tasks,
        };
        let ghost before = tasks@;
        let mut changed = false;
        let mut i: usize = 0;
        while i < tasks.len()
            invariant
                i <= tasks@.len(),
                tasks@.len() == before.len(),
                before.len() <= stamps@.len(),
                forall|j: int| i <= j < before.len() ==> tasks@[j] == #[trigger] before[j],
                forall|j: int|
                    0 <= j < i ==> has_id_filled(
                        #[trigger] before[j],
                        tasks@[j],
                        stamps@[j] as nat,
                        process as nat,
                    ),
                changed == exists|j: int| 0 <= j < i && (#[trigger] before[j]).id@.len() == 0,
            decreases tasks.len() - i,
        {
            assert(tasks@[i as int] == before[i as int]);
            if tasks[i].id.as_str().is_empty() {
                tasks[i].id = generate_task_id(stamps[i], process);
                changed = true;
            }
            i = i + 1;
        }
        (tasks, changed)
    }

    /// Adds a task to the end of the list, in place of those that share its
    /// process or its identifier.
    pub fn add_task(&self, tasks: &mut Vec<DaemonTask>, task: DaemonTask)
        ensures
            final(tasks)@ == old(tasks)@.filter(|t: DaemonTask| stays_beside(t, task)).push(task),
    {
        let newcomer = &task;
        let test = |t: &DaemonTask| -> (b: bool)
            ensures
                b == stays_beside(*t, *newcomer),
            { t.pid != newcomer.pid && !same_text(t.id.as_str(), newcomer.id.as_str()) };
        keep_where(tasks, test, Ghost(|t: DaemonTask| stays_beside(t, task)));
        tasks.push(task);
    }

    /// Enables or disables the first task that `target` means, and says whether
    /// there is one.
    pub fn set_task_enabled(
        &self,
        tasks: &mut Vec<DaemonTask>,
        target: &str,
        enabled: bool,
    ) -> (r: bool)
        ensures
            match first_meant(old(tasks)@, target@) {
                Some(i) => r && 0 <= i < old(tasks)@.len() && final(tasks)@ == old(tasks)@.update(
                    i,
                    DaemonTask { enabled, ..old(tasks)@[i] },
                ),
                None => !r && final(tasks)@ == old(tasks)@,
            },
    {
        match position(tasks, target) {
            Some(i) => {
                tasks[i].enabled = enabled;
                assert(tasks@ =~= old(tasks)@.update(
                    i as int,
                    DaemonTask { enabled, ..old(tasks)@[i as int] },
                ));
                true
            },
            None => false,
        }
    }

    /// Lets the first task that `target` means rest until the given time, or no
    /// longer, and says whether there is one.
    pub fn set_task_paused_until(
        &self,
        tasks: &mut Vec<DaemonTask>,
        target: &str,
        paused_until: Option<i64>,
    ) -> (r: bool)
        ensures
            match first_meant(old(tasks)@, target@) {
                Some(i) => r && 0 <= i < old(tasks)@.len() && final(tasks)@ == old(tasks)@.update(
                    i,
                    DaemonTask { paused_until, ..old(tasks)@[i] },
                ),
                None => !r && final(tasks)@ == old(tasks)@,
            },
    {
        match position(tasks, target) {
            Some(i) => {
                tasks[i].paused_until = paused_until;
                assert(tasks@ =~= old(tasks)@.update(
                    i as int,
                    DaemonTask { paused_until, ..old(tasks)@[i as int] },
                ));
                true
            },
            None => false,
        }
    }

    /// Enables or disables every task, and says how many there are.
    pub fn set_all_tasks_enabled(&self, tasks: &mut Vec<DaemonTask>, enabled: bool) -> (r: usize)
        ensures
            final(tasks)@ == old(tasks)@.map_values(
                |t: DaemonTask| (DaemonTask { enabled, ..t }),
            ),
            r == old(tasks)@.len(),
    {
        let ghost before = tasks@;
        let mut i: usize = 0;
        while i < tasks.len()
            invariant
                i <= tasks@.len(),
                tasks@.len() == before.len(),
                forall|j: int| i <= j < before.len() ==> tasks@[j] == #[trigger] before[j],
                forall|j: int|
                    0 <= j < i ==> tasks@[j] == (DaemonTask { enabled, ..#[trigger] before[j] }),
            decreases tasks.len() - i,
        {
            assert(tasks@[i as int] == before[i as int]);
            tasks[i].enabled = enabled;
            i = i + 1;
        }
        assert(tasks@ =~= before.map_values(|t: DaemonTask| (DaemonTask { enabled, ..t })));
        i
    }

    /// Empties the list, and says how many tasks there were.
    pub fn remove_all_tasks(&self, tasks: &mut Vec<DaemonTask>) -> (r: usize)
        ensures
            final(tasks)@ == Seq::<DaemonTask>::empty(),
            r == old(tasks)@.len(),
    {
        let count: usize = tasks.len();
        tasks.clear();
        count
    }

    /// Removes the tasks of process `pid`.
    pub fn remove_task_by_pid(&self, tasks: &mut Vec<DaemonTask>, pid: u32)
        ensures
            final(tasks)@ == old(tasks)@.filter(|t: DaemonTask| t.pid != pid),
    {
        let test = |t: &DaemonTask| -> (b: bool)
            ensures
                b == (t.pid != pid),
            { t.pid != pid };
        keep_where(tasks, test, Ghost(|t: DaemonTask| t.pid != pid));
    }

    /// Removes every task that `target` means, and says whether there was one.
    pub fn remove_task(&self, tasks: &mut Vec<DaemonTask>, target: &str) -> (r: bool)
        ensures
            final(tasks)@ == old(tasks)@.filter(|t: DaemonTask| !is_meant(t, target@)),
            r == (final(tasks)@.len() != old(tasks)@.len()),
    {
        let before: usize = tasks.len();
        let test = |t: &DaemonTask| -> (b: bool)
            ensures
                b == !is_meant(*t, target@),
            { !task_matches(t, target) };
        keep_where(tasks, test, Ghost(|t: DaemonTask| !is_meant(t, target@)));
        tasks.len() != before
    }

    /// Picks the first task that `target` means.
    pub fn find_task(&self, tasks: Vec<DaemonTask>, target: &str) -> (r: Option<DaemonTask>)
        ensures
            match first_meant(tasks@, target@) {
                Some(i) => 0 <= i < tasks@.len() && r == Some(tasks@[i]),
                None => r is None,
            },
    {
        let mut tasks = tasks;
        match position(&tasks, target) {
            Some(i) => Some(tasks.swap_remove(i)),
            None => None,
        }
    }
}

} // verus!
