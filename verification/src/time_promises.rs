//! What the operations that read the clock promise at whatever time they are
//! called, and what is shown to begin with.

use vstd::prelude::*;
use vstd::string::*;
use vstd::utf8::*;

use crate::clock::is_time;
use crate::conflict::Moment;
use crate::control::should_restart;
use crate::daemon::{DaemonTask, HistoryEvent, StateManager, is_paused};
use crate::doctor::rotated_extension;
use crate::duration::{duration_seconds, pause_until};
use crate::number::NumberError;
use crate::paths::Platform;
use crate::policy::{ConflictArg, ConflictPolicy};
use crate::report_laws::{columns_stand_in_line, states_are_shown};
use crate::scripts::tray_script;
use crate::starters::{handle_init, starter_question};
use crate::status::{show_status, state_word, status_header, status_lines, task_row};
use crate::text::texts;
use crate::watcher::history_event;

verus! {

/// A task that was not paused does not rest, and is started again if and only if
/// it is enabled; one that is paused for good rests and is not started again.
pub proof fn pauses_hold_at_any_time(task: &DaemonTask, rests: bool, again: bool)
    requires
        call_ensures(is_paused, (task,), rests),
        call_ensures(should_restart, (task,), again),
    ensures
        task.paused_until is None ==> !rests,
        task.paused_until is None ==> again == task.enabled,
        task.paused_until == Some(i64::MAX) ==> rests && !again,
        task.paused_until matches Some(until) ==> (until <= 0 ==> !rests && again == task.enabled),
        !task.enabled ==> !again,
{
}

/// A pause that starts now ends so many seconds later as its duration has, or
/// never without one; what is no duration is refused.
pub proof fn pauses_start_now(
    duration: &str,
    r: Option<Result<Option<i64>, NumberError>>,
    s: Option<Result<Option<i64>, NumberError>>,
)
    requires
        call_ensures(pause_until, (Some(duration),), r),
        call_ensures(pause_until, (None,), s),
    ensures
        duration_seconds(duration@) matches Err(e) ==> r == Some(
            Err::<Option<i64>, NumberError>(e),
        ),
        duration_seconds(duration@) matches Ok(n) ==> (r matches Some(answer) ==> (answer matches Ok(
            Some(end),
        ) && is_time(end - n))),
        s == Some(Ok::<Option<i64>, NumberError>(Some(i64::MAX))),
{
}

/// An event has the level and the message that it was given, the time of the
/// call, and no task.
pub proof fn events_are_of_now(level: &str, message: String, r: HistoryEvent)
    requires
        call_ensures(history_event, (level, message), r),
    ensures
        is_time(r.ts as int),
        r.level@ == level@,
        r.message@ == message@,
        r.task is None,
{
}

/// The table has a line for each task behind its head, and a remark if there is
/// no task. A task that was not paused is shown as running, stopped or disabled.
pub proof fn table_shows_all_tasks(
    tasks: &Vec<DaemonTask>,
    running: &Vec<bool>,
    header: String,
    r: Vec<String>,
    i: int,
)
    requires
        tasks@.len() == running@.len(),
        call_ensures(show_status, (tasks, running), r),
        call_ensures(status_header, (), header),
    ensures
        tasks@.len() == 0 ==> r@.len() == 1 && r@[0]@ == "No daemons found."@,
        tasks@.len() > 0 ==> r@.len() == tasks@.len() + 1 && r@[0]@ == header@,
        0 <= i < tasks@.len() && tasks@[i].paused_until is None ==> exists|time: int|
            r@[i + 1]@ == #[trigger] task_row(tasks@[i], time, running@[i]) && (state_word(
                tasks@[i],
                time,
                running@[i],
            ) == "DISABLED"@ <==> !tasks@[i].enabled) && (state_word(tasks@[i], time, running@[i])
                == "RUNNING"@ <==> tasks@[i].enabled && running@[i]),
        header@.subrange(0, 2) == seq!['I', 'D'],
        header@.subrange(19, 23) == seq!['N', 'A', 'M', 'E'],
        header@.subrange(36, 39) == seq!['P', 'I', 'D'],
        header@.subrange(45, 50) == seq!['S', 'T', 'A', 'T', 'E'],
        header@.subrange(56, 60) == seq!['T', 'Y', 'P', 'E'],
        header@.skip(67) == seq!['D', 'E', 'T', 'A', 'I', 'L', 'S'],
{
    let times = choose|times: Seq<int>|
        times.len() == tasks@.len() && (forall|i: int|
            0 <= i < times.len() ==> is_time(#[trigger] times[i])) && texts(r@)
            == #[trigger] status_lines(tasks@, times, running@);
    assert(texts(r@).len() == r@.len());
    assert(texts(r@)[0] == r@[0]@);
    if 0 <= i < tasks@.len() {
        assert(texts(r@)[i + 1] == r@[i + 1]@);
        assert(r@[i + 1]@ == task_row(tasks@[i], times[i], running@[i]));
        states_are_shown(tasks@[i], times[i], running@[i]);
    }
    reveal_strlit("ID");
    reveal_strlit("NAME");
    reveal_strlit("PID");
    reveal_strlit("STATE");
    reveal_strlit("TYPE");
    reveal_strlit("DETAILS");
    assert("ID"@ =~= seq!['I', 'D']);
    assert("NAME"@ =~= seq!['N', 'A', 'M', 'E']);
    assert("PID"@ =~= seq!['P', 'I', 'D']);
    assert("STATE"@ =~= seq!['S', 'T', 'A', 'T', 'E']);
    assert("TYPE"@ =~= seq!['T', 'Y', 'P', 'E']);
    assert("DETAILS"@ =~= seq!['D', 'E', 'T', 'A', 'I', 'L', 'S']);
    columns_stand_in_line("ID"@, "NAME"@, "PID"@, "STATE"@, "TYPE"@, "DETAILS"@);
}

/// A moment is its seconds in nanoseconds and the nanoseconds that it has more,
/// and a greater one is later.
pub proof fn moments_are_counted(a: &Moment, b: &Moment, m: i128, n: i128)
    requires
        call_ensures(Moment::as_nanos, (a,), m),
        call_ensures(Moment::as_nanos, (b,), n),
    ensures
        m == a.secs * 1_000_000_000 + a.nanos,
        a.nanos < 1_000_000_000 && a.secs < b.secs ==> m < n,
        a.secs == b.secs ==> (m < n <==> a.nanos < b.nanos),
{
}

/// The policy that an argument asks for bears the argument's name.
pub proof fn arguments_become_policies(value: ConflictArg, r: ConflictPolicy)
    requires
        call_ensures(<ConflictPolicy as From<ConflictArg>>::from, (value,), r),
    ensures
        value == ConflictArg::Skip <==> r == ConflictPolicy::Skip,
        value == ConflictArg::Overwrite <==> r == ConflictPolicy::Overwrite,
        value == ConflictArg::Rename <==> r == ConflictPolicy::Rename,
        value == ConflictArg::Newest <==> r == ConflictPolicy::Newest,
{
}

/// The state is kept in a directory of its own name, in the one for
/// configuration or in the current one.
pub proof fn state_has_its_directory(platform: Platform, r: StateManager)
    requires
        call_ensures(StateManager::new, (platform,), r),
    ensures
        r.on() == platform,
        exists|before: Seq<u8>| r.dir() == #[trigger] (before + encode_utf8("autofilemgrd"@)),
{
}

/// Removing all tasks leaves none and tells how many there were.
pub proof fn all_tasks_are_removed(state: &StateManager, tasks: &mut Vec<DaemonTask>, r: usize)
    requires
        call_ensures(StateManager::remove_all_tasks, (state, tasks), r),
    ensures
        final(tasks)@.len() == 0,
        r == old(tasks)@.len(),
{
}

/// The starters are shown in the order in which the question numbers them, each
/// by the command that it is for.
pub proof fn starters_are_numbered(lines: Vec<String>, question: &'static str)
    requires
        call_ensures(handle_init, (), lines),
        call_ensures(starter_question, (), question),
    ensures
        lines@.len() == 4,
        lines@[1]@.subrange(6, 11) == "unzip"@,
        lines@[2]@.subrange(6, 10) == "sort"@,
        lines@[3]@.subrange(6, 11) == "clean"@,
        forall|i: int| 1 <= i < 4 ==> #[trigger] lines@[i]@.subrange(2, 5) == seq!['a', 'f', 'm'],
        question@.subrange(17, 25) == "1: unzip"@,
        question@.subrange(27, 34) == "2: sort"@,
        question@.subrange(36, 44) == "3: clean"@,
{
    reveal_strlit("  afm unzip ~/Downloads --name downloads-zip");
    reveal_strlit(
        "  afm sort ~/Downloads --rule \"*.pdf=C:\\Users\\you\\Documents\" --name downloads-sort",
    );
    reveal_strlit(
        "  afm clean ~/Downloads --older-than 30d --move-to D:\\Archive --name downloads-clean",
    );
    reveal_strlit("Create one now? (1: unzip, 2: sort, 3: clean, Enter: none) ");
    reveal_strlit("unzip");
    reveal_strlit("sort");
    reveal_strlit("clean");
    reveal_strlit("1: unzip");
    reveal_strlit("2: sort");
    reveal_strlit("3: clean");
    assert(texts(lines@).len() == lines@.len());
    assert(texts(lines@)[1] == lines@[1]@);
    assert(texts(lines@)[2] == lines@[2]@);
    assert(texts(lines@)[3] == lines@[3]@);
    assert(lines@[1]@.subrange(6, 11) =~= "unzip"@);
    assert(lines@[2]@.subrange(6, 10) =~= "sort"@);
    assert(lines@[3]@.subrange(6, 11) =~= "clean"@);
    assert(lines@[1]@.subrange(2, 5) =~= seq!['a', 'f', 'm']);
    assert(lines@[2]@.subrange(2, 5) =~= seq!['a', 'f', 'm']);
    assert(lines@[3]@.subrange(2, 5) =~= seq!['a', 'f', 'm']);
    assert(question@.subrange(17, 25) =~= "1: unzip"@);
    assert(question@.subrange(27, 34) =~= "2: sort"@);
    assert(question@.subrange(36, 44) =~= "3: clean"@);
}

/// Whether `part` stands somewhere in `whole`.
pub open spec fn holds_text(whole: Seq<char>, part: Seq<char>) -> bool {
    exists|before: Seq<char>, after: Seq<char>| whole == #[trigger] (before + part + after)
}

proof fn lemma_holds(
    whole: Seq<char>,
    a: Seq<char>,
    x: Seq<char>,
    b: Seq<char>,
    rest: Seq<char>,
    tail: Seq<char>,
    front: Seq<char>,
)
    requires
        whole == a + x + b + rest,
        tail.len() <= a.len(),
        a.skip(a.len() - tail.len()) == tail,
        front.len() <= b.len(),
        b.take(front.len() as int) == front,
    ensures
        holds_text(whole, tail + x + front),
{
    let before = a.take(a.len() - tail.len());
    let after = b.skip(front.len() as int) + rest;
    assert(a =~= before + tail);
    assert(b =~= front + b.skip(front.len() as int));
    assert(whole =~= before + (tail + x + front) + after);
}

/// Each item of the tray's menu starts the program with the item's own command.
pub proof fn items_of_the_tray_start_their_commands(exe: &str, r: String)
    requires
        call_ensures(tray_script, (exe,), r),
    ensures
        holds_text(
            r@,
            "('Status')
$status.add_Click({ Start-Process -FilePath '"@ + exe@ + "' -ArgumentList 'status' })"@,
        ),
        holds_text(
            r@,
            "('Resume')
$resume.add_Click({ Start-Process -FilePath '"@ + exe@ + "' -ArgumentList 'resume' -"@,
        ),
        holds_text(
            r@,
            "('Doctor')
$doctor.add_Click({ Start-Process -FilePath '"@ + exe@ + "' -ArgumentList 'doctor' })"@,
        ),
{
    let head = "
Add-Type -AssemblyName System.Windows.Forms
$icon = New-Object System.Windows.Forms.NotifyIcon
$icon.Text = 'Auto File Manager'
$icon.Icon = [System.Drawing.SystemIcons]::Application
$menu = New-Object System.Windows.Forms.ContextMenuStrip
$status = $menu.Items.Add('Status')
$status.add_Click({ Start-Process -FilePath '"@;
    let second = "' -ArgumentList 'status' })
$resume = $menu.Items.Add('Resume')
$resume.add_Click({ Start-Process -FilePath '"@;
    let third = "' -ArgumentList 'resume' -WindowStyle Hidden })
$doctor = $menu.Items.Add('Doctor')
$doctor.add_Click({ Start-Process -FilePath '"@;
    let last = "' -ArgumentList 'doctor' })
$exit = $menu.Items.Add('Exit Tray')
$exit.add_Click({ $icon.Visible = $false; [System.Windows.Forms.Application]::Exit() })
$icon.ContextMenuStrip = $menu
$icon.Visible = $true
[System.Windows.Forms.Application]::Run()
"@;
    let status = "('Status')
$status.add_Click({ Start-Process -FilePath '"@;
    let resume = "('Resume')
$resume.add_Click({ Start-Process -FilePath '"@;
    let doctor = "('Doctor')
$doctor.add_Click({ Start-Process -FilePath '"@;
    let status_word = "' -ArgumentList 'status' })"@;
    let resume_word = "' -ArgumentList 'resume' -"@;
    let doctor_word = "' -ArgumentList 'doctor' })"@;
    reveal_strlit(
        "
Add-Type -AssemblyName System.Windows.Forms
$icon = New-Object System.Windows.Forms.NotifyIcon
$icon.Text = 'Auto File Manager'
$icon.Icon = [System.Drawing.SystemIcons]::Application
$menu = New-Object System.Windows.Forms.ContextMenuStrip
$status = $menu.Items.Add('Status')
$status.add_Click({ Start-Process -FilePath '",
    );
    reveal_strlit(
        "' -ArgumentList 'status' })
$resume = $menu.Items.Add('Resume')
$resume.add_Click({ Start-Process -FilePath '",
    );
    reveal_strlit(
        "' -ArgumentList 'resume' -WindowStyle Hidden })
$doctor = $menu.Items.Add('Doctor')
$doctor.add_Click({ Start-Process -FilePath '",
    );
    reveal_strlit(
        "' -ArgumentList 'doctor' })
$exit = $menu.Items.Add('Exit Tray')
$exit.add_Click({ $icon.Visible = $false; [System.Windows.Forms.Application]::Exit() })
$icon.ContextMenuStrip = $menu
$icon.Visible = $true
[System.Windows.Forms.Application]::Run()
",
    );
    reveal_strlit(
        "('Status')
$status.add_Click({ Start-Process -FilePath '",
    );
    reveal_strlit(
        "('Resume')
$resume.add_Click({ Start-Process -FilePath '",
    );
    reveal_strlit(
        "('Doctor')
$doctor.add_Click({ Start-Process -FilePath '",
    );
    reveal_strlit("' -ArgumentList 'status' })");
    reveal_strlit("' -ArgumentList 'resume' -");
    reveal_strlit("' -ArgumentList 'doctor' })");
    assert(head.skip(head.len() - status.len()) =~= status);
    assert(second.skip(second.len() - resume.len()) =~= resume);
    assert(third.skip(third.len() - doctor.len()) =~= doctor);
    assert(second.take(status_word.len() as int) =~= status_word);
    assert(third.take(resume_word.len() as int) =~= resume_word);
    assert(last.take(doctor_word.len() as int) =~= doctor_word);
    let x = exe@;
    assert(r@ =~= head + x + second + (x + third + x + last));
    assert(r@ =~= (head + x + second) + x + third + (x + last));
    assert(r@ =~= (head + x + second + x + third) + x + last + seq![]);
    let two = head + x + second;
    let three = head + x + second + x + third;
    assert(two.skip(two.len() - resume.len()) =~= second.skip(second.len() - resume.len()));
    assert(three.skip(three.len() - doctor.len()) =~= third.skip(third.len() - doctor.len()));
    lemma_holds(r@, head, x, second, x + third + x + last, status, status_word);
    lemma_holds(r@, two, x, third, x + last, resume, resume_word);
    lemma_holds(r@, three, x, last, seq![], doctor, doctor_word);
}

/// A log that is put aside keeps its ending, and a number stands behind it.
pub proof fn logs_are_put_aside(r: &'static str)
    requires
        call_ensures(rotated_extension, (), r),
    ensures
        r@ == seq!['l', 'o', 'g', '.', '1'],
{
    reveal_strlit("log.1");
    assert(r@ =~= seq!['l', 'o', 'g', '.', '1']);
}

} // verus!
