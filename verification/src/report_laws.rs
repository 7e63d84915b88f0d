//! Laws of what is shown, of the programs that are looked for, and of the tasks
//! that are created by asking.

use vstd::prelude::*;
use vstd::string::*;

use crate::commands::{Commands, task_args};
use crate::daemon::{DaemonTask, TaskType};
use crate::number::decimal;
use crate::paths::Platform;
use crate::policy::{ConflictArg, ConflictPolicy, conflict_label};
use crate::requirements::{Probe, first_probe, missing, probe_words};
use crate::scripts::{template, tray};
use crate::starters::{Starter, is_starter_command, is_unanswered, questions, starter_meant};
use crate::status::{details, kind_word, row, shown_option, state_word, status_lines, task_row};
use crate::text::{debug_text, first_chars, is_space, opt_text, texts, trimmed};
use crate::text_laws::{all_blank, cut_text_is_the_beginning, filled_text_is_the_text_and_blanks};
use crate::text_laws::trimming_ignores_whitespace_around;

verus! {

/// The word for what a task does is the one by which its daemon is told to.
pub proof fn tasks_are_shown_by_their_command(task: TaskType)
    ensures
        kind_word(task) == task_args(task)[1],
        task is Unzip <==> kind_word(task) == "unzip"@,
        task is Mirror <==> kind_word(task) == "mirror"@,
        task is Sort <==> kind_word(task) == "sort"@,
        task is Clean <==> kind_word(task) == "clean"@,
{
    reveal_strlit("unzip");
    reveal_strlit("mirror");
    reveal_strlit("sort");
    reveal_strlit("clean");
    assert("unzip"@[0] == 'u');
    assert("mirror"@[0] == 'm');
    assert("sort"@[0] == 's');
    assert("clean"@[0] == 'c');
}

/// A task is shown as paused if and only if its pause is not over, else as
/// disabled if it is, and else by whether its process is there.
pub proof fn states_are_shown(task: DaemonTask, now: int, running: bool)
    ensures
        ({
            let word = state_word(task, now, running);
            let paused = task.paused_until matches Some(until) && now < until;
            &&& word == "PAUSED"@ <==> paused
            &&& word == "DISABLED"@ <==> !paused && !task.enabled
            &&& word == "RUNNING"@ <==> !paused && task.enabled && running
            &&& word == "STOPPED"@ <==> !paused && task.enabled && !running
        }),
{
    reveal_strlit("PAUSED");
    reveal_strlit("DISABLED");
    reveal_strlit("RUNNING");
    reveal_strlit("STOPPED");
    assert("PAUSED"@[0] == 'P');
    assert("DISABLED"@[0] == 'D');
    assert("RUNNING"@[0] == 'R');
    assert("STOPPED"@[0] == 'S');
}

/// The columns of the table stand where the head has them, as long as nothing
/// is too wide for its column: at 0, 19, 36, 45 and 56 characters, and the last
/// at 67. Each begins with its text.
pub proof fn columns_stand_in_line(
    id: Seq<char>,
    name: Seq<char>,
    pid: Seq<char>,
    state: Seq<char>,
    kind: Seq<char>,
    rest: Seq<char>,
)
    requires
        id.len() <= 18,
        name.len() <= 16,
        pid.len() <= 8,
        state.len() <= 10,
        kind.len() <= 10,
    ensures
        ({
            let line = row(id, name, pid, state, kind, rest);
            &&& line.len() == 67 + rest.len()
            &&& line.subrange(0, id.len() as int) == id
            &&& line.subrange(19, 19 + name.len() as int) == name
            &&& line.subrange(36, 36 + pid.len() as int) == pid
            &&& line.subrange(45, 45 + state.len() as int) == state
            &&& line.subrange(56, 56 + kind.len() as int) == kind
            &&& line.skip(67) == rest
            &&& line[18] == ' ' && line[35] == ' ' && line[44] == ' ' && line[55] == ' ' && line[66]
                == ' '
        }),
{
    reveal_strlit(" ");
    assert(" "@.len() == 1 && " "@[0] == ' ');
    filled_text_is_the_text_and_blanks(id, 18);
    filled_text_is_the_text_and_blanks(name, 16);
    filled_text_is_the_text_and_blanks(pid, 8);
    filled_text_is_the_text_and_blanks(state, 10);
    filled_text_is_the_text_and_blanks(kind, 10);
    let line = row(id, name, pid, state, kind, rest);
    assert(line.subrange(0, id.len() as int) =~= id);
    assert(line.subrange(19, 19 + name.len() as int) =~= name);
    assert(line.subrange(36, 36 + pid.len() as int) =~= pid);
    assert(line.subrange(45, 45 + state.len() as int) =~= state);
    assert(line.subrange(56, 56 + kind.len() as int) =~= kind);
    assert(line.skip(67) =~= rest);
}

/// What is too wide for its column is shown whole, and the columns behind it
/// move on: the texts stand in the line in their order in any case.
pub proof fn wide_columns_are_shown_whole(
    id: Seq<char>,
    name: Seq<char>,
    pid: Seq<char>,
    state: Seq<char>,
    kind: Seq<char>,
    rest: Seq<char>,
)
    requires
        name.len() >= 16,
        id.len() <= 18,
    ensures
        ({
            let line = row(id, name, pid, state, kind, rest);
            &&& line.len() >= 20 + name.len()
            &&& line.subrange(19, 19 + name.len() as int) == name
            &&& rest.is_suffix_of(line)
        }),
{
    reveal_strlit(" ");
    filled_text_is_the_text_and_blanks(id, 18);
    filled_text_is_the_text_and_blanks(name, 16);
    let line = row(id, name, pid, state, kind, rest);
    assert(line.subrange(19, 19 + name.len() as int) =~= name);
    assert(line.subrange(line.len() - rest.len(), line.len() as int) =~= rest);
}

/// The table has a head and then one line for each task, in the order of the
/// tasks, or a remark if there is no task.
pub proof fn table_has_a_line_for_each_task(
    tasks: Seq<DaemonTask>,
    times: Seq<int>,
    running: Seq<bool>,
    i: int,
)
    ensures
        tasks.len() == 0 ==> status_lines(tasks, times, running) == seq!["No daemons found."@],
        tasks.len() > 0 ==> status_lines(tasks, times, running).len() == tasks.len() + 1,
        tasks.len() > 0 ==> status_lines(tasks, times, running)[0] == row(
            "ID"@,
            "NAME"@,
            "PID"@,
            "STATE"@,
            "TYPE"@,
            "DETAILS"@,
        ),
        0 <= i < tasks.len() ==> status_lines(tasks, times, running)[i + 1] == task_row(
            tasks[i],
            times[i],
            running[i],
        ),
{
}

/// The line of a task shows the beginning of its identifier, its name or a dash,
/// its process, its state, its kind and its particulars.
pub proof fn line_of_a_task(task: DaemonTask, now: int, running: bool, name: Seq<char>)
    requires
        name == match task.name {
            Some(given) => given@,
            None => "-"@,
        },
        name.len() <= 16,
        decimal(task.pid as nat).len() <= 8,
    ensures
        ({
            let line = task_row(task, now, running);
            let pid = decimal(task.pid as nat);
            let state = state_word(task, now, running);
            let kind = kind_word(task.task);
            &&& task.id@.len() >= 18 ==> line.subrange(0, 18) == task.id@.take(18)
            &&& task.id@.len() <= 18 ==> line.subrange(0, task.id@.len() as int) == task.id@
            &&& line.subrange(19, 19 + name.len() as int) == name
            &&& line.subrange(36, 36 + pid.len() as int) == pid
            &&& line.subrange(45, 45 + state.len() as int) == state
            &&& line.subrange(56, 56 + kind.len() as int) == kind
            &&& line.skip(67) == details(task.task)
        }),
{
    reveal_strlit("PAUSED");
    reveal_strlit("DISABLED");
    reveal_strlit("RUNNING");
    reveal_strlit("STOPPED");
    reveal_strlit("unzip");
    reveal_strlit("mirror");
    reveal_strlit("sort");
    reveal_strlit("clean");
    cut_text_is_the_beginning(task.id@, 18);
    let id = first_chars(task.id@, 18);
    columns_stand_in_line(
        id,
        name,
        decimal(task.pid as nat),
        state_word(task, now, running),
        kind_word(task.task),
        details(task.task),
    );
    if task.id@.len() >= 18 {
        assert(id =~= task.id@.take(18));
    }
}

/// The particulars of a task tell its folder first, and then what it does there:
/// whether archives are deleted, the policy, and how long files have to stay the
/// same.
pub proof fn particulars_of_unpacking(path: String, delete: bool, conflict: ConflictPolicy, stable_secs: u64)
    ensures
        details(TaskType::Unzip { path, delete, conflict, stable_secs }) == path@ + " delete="@ + (
        if delete {
            "true"@
        } else {
            "false"@
        }) + " conflict="@ + conflict_label(conflict) + " stable="@ + decimal(stable_secs as nat)
            + "s"@,
{
}

/// The particulars of a mirror tell where it leads from and to, on which machine
/// and by which means if it is another, and the policy.
pub proof fn particulars_of_mirroring(task: TaskType)
    ensures
        task matches TaskType::Mirror { src, dest, remote, use_rsync, conflict, .. } ==> {
            let shown = details(task);
            let label = conflict_label(conflict);
            &&& remote is None ==> shown == src@ + " -> "@ + dest@ + " ("@ + label + ")"@
            &&& remote is Some && use_rsync ==> shown == src@ + " -> "@ + remote->0@ + ":"@ + dest@
                + " ("@ + "rsync"@ + ", "@ + label + ")"@
            &&& remote is Some && !use_rsync ==> shown == src@ + " -> "@ + remote->0@ + ":"@ + dest@
                + " ("@ + "scp"@ + ", "@ + label + ")"@
        },
{
}

/// The particulars of sorting tell the number of rules, and those of cleaning
/// the age in days and the two options for where files go.
pub proof fn particulars_of_sorting_and_cleaning(task: TaskType)
    ensures
        task matches TaskType::Sort { path, rules, .. } ==> details(task) == path@ + " rules="@
            + decimal(rules@.len()),
        task matches TaskType::Clean { path, older_than_days, move_to, remote, .. } ==> details(task)
            == path@ + " older="@ + decimal(older_than_days as nat) + "d move_to="@ + shown_option(
            opt_text(move_to),
        ) + " remote="@ + shown_option(opt_text(remote)),
        shown_option(None) == "None"@,
        forall|v: Seq<char>| #[trigger] shown_option(Some(v)) == "Some("@ + debug_text(v) + ")"@,
{
}

/// What is looked for is what the copying will be done by: `scp` if and only if
/// a folder goes to another machine and `rsync` was not asked for, and otherwise
/// `rsync`, which on Windows is found through the Linux subsystem. It is looked
/// for by running that very program.
pub proof fn needed_program_is_looked_for(platform: Platform, is_remote: bool, use_rsync: bool)
    ensures
        ({
            let probe = first_probe(platform, is_remote, use_rsync);
            &&& probe == Probe::Scp <==> is_remote && !use_rsync
            &&& probe == Probe::Rsync <==> !(is_remote && !use_rsync) && platform == Platform::Unix
            &&& probe == Probe::Wsl <==> !(is_remote && !use_rsync) && platform
                == Platform::Windows
            &&& probe_words(probe)[0] == "scp"@ <==> is_remote && !use_rsync
        }),
        probe_words(Probe::Scp)[0] == "scp"@,
        probe_words(Probe::Rsync)[0] == "rsync"@,
        probe_words(Probe::Wsl)[0] == "wsl"@,
        probe_words(Probe::RsyncInWsl)[0] == "wsl"@,
        probe_words(Probe::RsyncInWsl).last() == "command -v rsync >/dev/null 2>&1"@,
        forall|p: Probe| p != Probe::RsyncInWsl ==> (#[trigger] probe_words(p)).len() == 2,
        probe_words(Probe::RsyncInWsl).len() == 4,
{
    reveal_strlit("scp");
    reveal_strlit("rsync");
    reveal_strlit("wsl");
    assert("scp"@[0] == 's' && "rsync"@[0] == 'r' && "wsl"@[0] == 'w');
}

/// The message about a program that is missing begins with its name.
pub proof fn missing_program_is_named(platform: Platform)
    ensures
        "scp is not "@.is_prefix_of(missing(platform, Probe::Scp)),
        "rsync is not installed."@.is_prefix_of(missing(platform, Probe::Rsync)),
        "WSL is not enabled."@.is_prefix_of(missing(platform, Probe::Wsl)),
        "rsync is not installed in WSL."@.is_prefix_of(missing(platform, Probe::RsyncInWsl)),
{
    reveal_strlit("scp is not ");
    reveal_strlit("rsync is not installed.");
    reveal_strlit("WSL is not enabled.");
    reveal_strlit("rsync is not installed in WSL.");
    reveal_strlit(
        "scp is not available. Use '--rsync' to mirror via WSL rsync, or install OpenSSH scp.",
    );
    reveal_strlit("scp is not installed. Install OpenSSH scp or use '--rsync'.");
    reveal_strlit("rsync is not installed. Please install rsync and retry.");
    reveal_strlit(
        "WSL is not enabled. Enable WSL first, then install rsync inside WSL. For remote mirrors on Windows you can also skip '--rsync' to use scp.",
    );
    reveal_strlit(
        "rsync is not installed in WSL. Install it in your distro (e.g. 'sudo apt install rsync'). For remote mirrors on Windows you can use scp by omitting '--rsync'.",
    );
    let a = missing(platform, Probe::Scp);
    let b = missing(platform, Probe::Rsync);
    let c = missing(platform, Probe::Wsl);
    let d = missing(platform, Probe::RsyncInWsl);
    assert("scp is not "@.len() == 11 && "rsync is not installed."@.len() == 23);
    assert("WSL is not enabled."@.len() == 19 && "rsync is not installed in WSL."@.len() == 30);
    assert(a.subrange(0, 11) =~= "scp is not "@);
    assert(b.subrange(0, 23) =~= "rsync is not installed."@);
    assert(c.subrange(0, 19) =~= "WSL is not enabled."@);
    assert(d.subrange(0, 30) =~= "rsync is not installed in WSL."@);
}

/// A name is that of a template if and only if it is among the names that are
/// shown where none is given; then one line is shown, and otherwise the names.
pub proof fn templates_are_listed(name: Seq<char>)
    ensures
        template(None).contains(name) <==> template(Some(name)).len() == 1,
        template(None).contains(name) <==> template(Some(name)) != template(None),
        template(None) == seq![
            "downloads-cleanup"@,
            "zip-extractor"@,
            "photos-backup"@,
            "school-folder-sort"@,
        ],
{
    let names = template(None);
    assert(names[0] == "downloads-cleanup"@ && names[1] == "zip-extractor"@);
    assert(names[2] == "photos-backup"@ && names[3] == "school-folder-sort"@);
    if template(Some(name)).len() == 1 {
        assert(name == names[0] || name == names[1] || name == names[2] || name == names[3]);
    }
    if names.contains(name) {
        let i = choose|i: int| 0 <= i < names.len() && names[i] == name;
        assert(i == 0 || i == 1 || i == 2 || i == 3);
    }
}

/// The templates start the task that their names promise.
pub proof fn templates_start_their_tasks()
    ensures
        "afm clean "@.is_prefix_of(template(Some("downloads-cleanup"@))[0]),
        "afm unzip "@.is_prefix_of(template(Some("zip-extractor"@))[0]),
        "afm mirror "@.is_prefix_of(template(Some("photos-backup"@))[0]),
        "afm sort "@.is_prefix_of(template(Some("school-folder-sort"@))[0]),
{
    reveal_strlit("downloads-cleanup");
    reveal_strlit("zip-extractor");
    reveal_strlit("photos-backup");
    reveal_strlit("school-folder-sort");
    assert("downloads-cleanup"@[0] == 'd' && "zip-extractor"@[0] == 'z');
    assert("photos-backup"@[0] == 'p' && "school-folder-sort"@[0] == 's');
    reveal_strlit("afm clean ");
    reveal_strlit("afm unzip ");
    reveal_strlit("afm mirror ");
    reveal_strlit("afm sort ");
    reveal_strlit(
        "afm clean ~/Downloads --older-than 30d --move-to ~/Archive --empty-dirs --name downloads-cleanup",
    );
    reveal_strlit("afm unzip ~/Downloads --name zip-extractor --on-conflict rename");
    reveal_strlit("afm mirror ~/Pictures D:\\PhotoBackup --name photos-backup");
    reveal_strlit(
        "afm sort ~/Downloads --rule \"*.pdf=~/Documents/School\" --rule \"*.docx=~/Documents/School\" --name school-sort",
    );
    assert(template(Some("downloads-cleanup"@))[0].subrange(0, 10) =~= "afm clean "@);
    assert(template(Some("zip-extractor"@))[0].subrange(0, 10) =~= "afm unzip "@);
    assert(template(Some("photos-backup"@))[0].subrange(0, 11) =~= "afm mirror "@);
    assert(template(Some("school-folder-sort"@))[0].subrange(0, 9) =~= "afm sort "@);
}

/// The three common tasks are chosen by their numbers, whatever whitespace is
/// around them, and nothing else chooses one.
pub proof fn starters_are_chosen_by_number(before: Seq<char>, answer: Seq<char>, behind: Seq<char>)
    requires
        all_blank(before),
        all_blank(behind),
        answer.len() > 0 ==> !is_space(answer[0]) && !is_space(answer.last()),
    ensures
        ({
            let meant = starter_meant(before + answer + behind);
            &&& meant == Some(Starter::Unzip) <==> answer == seq!['1']
            &&& meant == Some(Starter::Sort) <==> answer == seq!['2']
            &&& meant == Some(Starter::Clean) <==> answer == seq!['3']
        }),
{
    reveal_strlit("1");
    reveal_strlit("2");
    reveal_strlit("3");
    assert("1"@ =~= seq!['1'] && "2"@ =~= seq!['2'] && "3"@ =~= seq!['3']);
    assert(seq!['1'][0] != seq!['2'][0]);
    assert(seq!['3'][0] != seq!['2'][0]);
    assert(seq!['1'][0] != seq!['3'][0]);
    trimming_ignores_whitespace_around(before, answer, behind);
}

/// The command of a common task is of its kind, about the folder that was
/// answered first and under the name that was answered last, with the answers
/// between them where they belong; conflicts are settled by renaming, and
/// nothing is rehearsed.
pub proof fn starters_use_the_answers(
    starter: Starter,
    answers: Seq<Seq<char>>,
    command: Commands,
)
    requires
        answers.len() == questions(starter).len(),
        is_starter_command(starter, answers, command),
    ensures
        starter == Starter::Unzip <==> command is Unzip,
        starter == Starter::Sort <==> command is Sort,
        starter == Starter::Clean <==> command is Clean,
        command matches Commands::Unzip { path, name, no_delete, on_conflict, .. } ==> path@
            == trimmed(answers[0]) && opt_text(name) == Some(trimmed(answers.last())) && !no_delete
            && on_conflict == ConflictArg::Rename,
        command matches Commands::Sort { path, rules, name, on_conflict, dry_run, .. } ==> path@
            == trimmed(answers[0]) && texts(rules@) == seq![trimmed(answers[1])] && opt_text(name)
            == Some(trimmed(answers.last())) && on_conflict == ConflictArg::Rename && !dry_run,
        command matches Commands::Clean {
            path,
            older_than,
            move_to,
            scp,
            rsync,
            empty_dirs,
            name,
            on_conflict,
            dry_run,
            ..
        } ==> path@ == trimmed(answers[0]) && older_than@ == trimmed(answers[1]) && opt_text(
            move_to,
        ) == Some(trimmed(answers[2])) && scp is None && !rsync && !empty_dirs && opt_text(name)
            == Some(trimmed(answers.last())) && on_conflict == ConflictArg::Rename && !dry_run,
        command matches Commands::Unzip { stable_secs, .. } ==> stable_secs == 2,
        command matches Commands::Sort { stable_secs, .. } ==> stable_secs == 2,
        command matches Commands::Clean { port_scp, .. } ==> port_scp == 22,
{
}

/// A question is left without an answer if and only if an answer is nothing but
/// whitespace.
pub proof fn whitespace_is_no_answer(answers: Seq<Seq<char>>, i: int)
    requires
        0 <= i < answers.len(),
        all_blank(answers[i]),
    ensures
        is_unanswered(answers),
{
    let none = Seq::<char>::empty();
    trimming_ignores_whitespace_around(answers[i], none, none);
    assert(answers[i] + none + none =~= answers[i]);
}

/// The script of the tray holds the program three times, once behind each of
/// the words for its entries.
pub proof fn tray_starts_the_program(exe: Seq<char>, other: Seq<char>)
    ensures
        tray(exe).len() == tray(seq![]).len() + 3 * exe.len(),
        exe.len() == other.len() && tray(exe) == tray(other) ==> exe == other,
{
    let head = "
Add-Type -AssemblyName System.Windows.Forms
$icon = New-Object System.Windows.Forms.NotifyIcon
$icon.Text = 'Auto File Manager'
$icon.Icon = [System.Drawing.SystemIcons]::Application
$menu = New-Object System.Windows.Forms.ContextMenuStrip
$status = $menu.Items.Add('Status')
$status.add_Click({ Start-Process -FilePath '"@;
    let n = head.len() as int;
    if exe.len() == other.len() && tray(exe) == tray(other) {
        assert(tray(exe).subrange(n, n + exe.len()) =~= exe);
        assert(tray(other).subrange(n, n + other.len()) =~= other);
    }
}

} // verus!
