use afm::commands::Commands;
use afm::control::{
    deleted, handle_delete, handle_disable, imported, kill_pid, new_task, no_daemon, no_task,
    paused, resumed, should_restart, should_restart_at, started, stop_outcome, Deletion,
};
use afm::daemon::{DaemonTask, HistoryEvent, StateManager, TaskType};
use afm::doctor::{
    closing_lines, diagnose, drop_dead_tasks, handle_doctor, is_log, rotate_logs,
    rotated_extension, task_path_exists, MAX_LOG_SIZE,
};
use afm::logs::{
    closing_line, log_pages, more_prompt, no_logs, parse_pid, quits, show_logs, LogStep,
};
use afm::paths::Platform;
use afm::policy::ConflictPolicy;
use afm::records::{
    handle_undo, latest_lines, lines_of, nothing_to_undo, pop_record, record_line, show_history,
    undo_message, UndoStep,
};
use afm::requirements::{after_probe, ensure_mirror_requirements, probe_command, Probe};
use afm::scripts::{
    handle_startup, launch_tray, send_notification, show_template, startup_script,
    tray_script,
};
use afm::starters::{
    choose_starter, handle_init, starter_command, starter_question, starter_questions, Starter,
};
use afm::status::{details_with, short_id, show_status, show_status_at, status_row, task_details, task_kind};

fn unzip() -> TaskType {
    TaskType::Unzip {
        path: "/in".to_string(),
        delete: true,
        conflict: ConflictPolicy::Rename,
        stable_secs: 2,
    }
}

fn mirror(remote: Option<&str>, use_rsync: bool) -> TaskType {
    TaskType::Mirror {
        src: "/a".to_string(),
        dest: "/b".to_string(),
        remote: remote.map(|s| s.to_string()),
        port: None,
        use_rsync,
        conflict: ConflictPolicy::Skip,
        stable_secs: 2,
        included: Vec::new(),
        excluded: Vec::new(),
    }
}

fn clean(move_to: Option<&str>) -> TaskType {
    TaskType::Clean {
        path: "/in".to_string(),
        older_than_days: 30,
        move_to: move_to.map(|s| s.to_string()),
        remote: None,
        port: None,
        use_rsync: false,
        empty_dirs: false,
        conflict: ConflictPolicy::Rename,
    }
}

fn task(id: &str, name: Option<&str>, pid: u32) -> DaemonTask {
    new_task(id.to_string(), name.map(|s| s.to_string()), pid, unzip())
}

fn state() -> StateManager {
    StateManager::from_home(Some(b"/c".to_vec()), Platform::Unix)
}

#[test]
fn new_tasks_are_enabled() {
    let t = task("a", Some("n"), 4);
    assert!(t.enabled);
    assert_eq!(t.paused_until, None);
    assert_eq!(started("a", 4), "Started daemon a with PID 4");
}

#[test]
fn only_own_processes_are_ended() {
    assert_eq!(kill_pid(7, false, Some(true)), Ok(false));
    assert_eq!(kill_pid(7, true, None), Ok(false));
    assert_eq!(kill_pid(7, true, Some(true)), Ok(true));
    assert_eq!(kill_pid(7, true, Some(false)), Err("Failed to kill process 7".to_string()));
}

#[test]
fn stopping_a_task() {
    let t = task("a", Some("zips"), 7);
    assert_eq!(
        stop_outcome(&t, &Ok(true), false),
        (Some("Stopped daemon zips (7)".to_string()), true)
    );
    assert_eq!(
        stop_outcome(&task("a", None, 7), &Ok(true), false).0.unwrap(),
        "Stopped daemon a (7)"
    );
    assert_eq!(
        stop_outcome(&t, &Ok(false), true),
        (
            Some("No process found with PID 7, but removing from state anyway.".to_string()),
            true
        )
    );
    assert_eq!(stop_outcome(&t, &Err("x".to_string()), true), (None, false));
    assert_eq!(stop_outcome(&t, &Err("x".to_string()), false), (None, true));
}

#[test]
fn disabling_all_tasks() {
    let mut tasks = vec![task("a", None, 1), task("b", None, 2)];
    let r = handle_disable(&state(), &mut tasks, "ALL");
    assert_eq!(r.kill, [1, 2]);
    assert_eq!(r.message, "Disabled 2 daemon(s).");
    assert!(r.changed);
    assert!(tasks.iter().all(|t| !t.enabled && !should_restart(t)));
}

#[test]
fn disabling_one_task() {
    let mut tasks = vec![task("a", None, 1), task("b", None, 2)];
    let r = handle_disable(&state(), &mut tasks, "b");
    assert_eq!(r.kill, [2]);
    assert_eq!(r.message, "Disabled daemon b");
    assert!(r.changed);
    assert!(tasks[0].enabled && !tasks[1].enabled);
    let r = handle_disable(&state(), &mut tasks, "c");
    assert!(r.kill.is_empty() && !r.changed);
    assert_eq!(r.message, "No daemon found for c");
}

#[test]
fn deleting_tasks() {
    let mut tasks = vec![task("a", Some("x"), 1), task("b", Some("x"), 2), task("c", None, 3)];
    assert!(matches!(handle_delete(&state(), &mut tasks, "x"), Deletion::Meant { pid: 1 }));
    assert_eq!(tasks.len(), 1);
    assert!(matches!(
        handle_delete(&state(), &mut tasks, "x"),
        Deletion::Nobody { message } if message == "No daemon found for x"
    ));
    assert!(matches!(
        handle_delete(&state(), &mut tasks, "all"),
        Deletion::All { kill, message } if kill == [3] && message == "Deleted 1 daemon(s)."
    ));
    assert!(tasks.is_empty());
}

#[test]
fn what_is_said_of_deleted_tasks() {
    assert_eq!(deleted("x", &Ok(true), true), "Deleted daemon x");
    assert_eq!(deleted("x", &Err("e".to_string()), false), "Deleted daemon x");
    let still = "Removed daemon x from state, but process might still be running.";
    assert_eq!(deleted("x", &Ok(false), false), still);
    assert_eq!(deleted("x", &Err("e".to_string()), true), still);
}

#[test]
fn resting_tasks_are_not_restarted() {
    let mut t = task("a", None, 1);
    assert!(should_restart(&t));
    assert!(should_restart_at(&t, 0));
    t.paused_until = Some(10);
    assert!(!should_restart_at(&t, 9));
    assert!(should_restart_at(&t, 10));
}

#[test]
fn what_is_said_of_pauses() {
    assert_eq!(resumed("x", true), "Resumed task x");
    assert_eq!(resumed("x", false), "No daemon found for x");
    assert_eq!(paused("x", true), "Paused task x");
    assert_eq!(paused("x", false), no_daemon("x"));
    assert_eq!(no_task("x"), "No task found for x");
    assert_eq!(imported(3), "Imported 3 task(s).");
}

#[test]
fn programs_that_are_needed_on_unix() {
    let first = |remote, rsync| ensure_mirror_requirements(Platform::Unix, remote, rsync);
    assert_eq!(first(false, false), Probe::Rsync);
    assert_eq!(first(false, true), Probe::Rsync);
    assert_eq!(first(true, true), Probe::Rsync);
    assert_eq!(first(true, false), Probe::Scp);
    assert_eq!(after_probe(Platform::Unix, Probe::Scp, true), Ok(None));
    assert_eq!(
        after_probe(Platform::Unix, Probe::Rsync, false),
        Err("rsync is not installed. Please install rsync and retry.")
    );
    assert_eq!(
        after_probe(Platform::Unix, Probe::Scp, false),
        Err("scp is not installed. Install OpenSSH scp or use '--rsync'.")
    );
}

#[test]
fn programs_that_are_needed_on_windows() {
    let first = |remote, rsync| ensure_mirror_requirements(Platform::Windows, remote, rsync);
    assert_eq!(first(true, false), Probe::Scp);
    assert_eq!(first(false, false), Probe::Wsl);
    assert_eq!(first(true, true), Probe::Wsl);
    let after = |probe, found| after_probe(Platform::Windows, probe, found);
    assert_eq!(after(Probe::Wsl, true), Ok(Some(Probe::RsyncInWsl)));
    assert_eq!(after(Probe::RsyncInWsl, true), Ok(None));
    assert_eq!(
        after(Probe::Scp, false),
        Err("scp is not available. Use '--rsync' to mirror via WSL rsync, or install OpenSSH scp.")
    );
    assert_eq!(
        after(Probe::Wsl, false),
        Err("WSL is not enabled. Enable WSL first, then install rsync inside WSL. \
             For remote mirrors on Windows you can also skip '--rsync' to use scp.")
    );
    assert_eq!(
        after(Probe::RsyncInWsl, false),
        Err("rsync is not installed in WSL. Install it in your distro (e.g. 'sudo apt install \
             rsync'). For remote mirrors on Windows you can use scp by omitting '--rsync'.")
    );
}

#[test]
fn programs_are_looked_for_by_running_them() {
    let (line, success) = probe_command(Probe::Scp);
    assert_eq!((line.program.as_str(), success), ("scp", false));
    assert_eq!(line.args, ["-V"]);
    let (line, _) = probe_command(Probe::Rsync);
    assert_eq!((line.program.as_str(), line.args[0].as_str()), ("rsync", "--version"));
    let (line, _) = probe_command(Probe::Wsl);
    assert_eq!((line.program.as_str(), line.args[0].as_str()), ("wsl", "--status"));
    let (line, success) = probe_command(Probe::RsyncInWsl);
    assert!(success);
    assert_eq!(line.args, ["sh", "-lc", "command -v rsync >/dev/null 2>&1"]);
}

#[test]
fn details_of_tasks() {
    assert_eq!(task_details(&unzip()), "/in delete=true conflict=Rename stable=2s");
    assert_eq!(task_details(&mirror(None, false)), "/a -> /b (Skip)");
    assert_eq!(task_details(&mirror(Some("m@t"), false)), "/a -> m@t:/b (scp, Skip)");
    assert_eq!(task_details(&mirror(Some("m@t"), true)), "/a -> m@t:/b (rsync, Skip)");
    assert_eq!(task_details(&clean(None)), "/in older=30d move_to=None remote=None");
    assert_eq!(
        task_details(&clean(Some("/o\\\"ld"))),
        "/in older=30d move_to=Some(\"/o\\\\\\\"ld\") remote=None"
    );
    let sort = TaskType::Sort {
        path: "/in".to_string(),
        rules: vec!["a=b".to_string()],
        conflict: ConflictPolicy::Rename,
        stable_secs: 2,
    };
    assert_eq!(task_details(&sort), "/in rules=1");
    assert_eq!(details_with(&clean(None), "M", "R"), "/in older=30d move_to=M remote=R");
}

#[test]
fn kinds_of_tasks() {
    assert_eq!(task_kind(&unzip()), "unzip");
    assert_eq!(task_kind(&mirror(None, true)), "mirror");
    assert_eq!(task_kind(&clean(None)), "clean");
    assert_eq!(short_id("task_1700000000123_42"), "task_1700000000123");
    assert_eq!(short_id("a"), "a");
}

#[test]
fn table_of_tasks() {
    let mut tasks = vec![
        task("task_1700000000123_42", Some("zips"), 7),
        task("b", None, 8),
        task("c", None, 9),
        task("d", None, 10),
    ];
    tasks[1].enabled = false;
    tasks[2].paused_until = Some(100);
    tasks[2].enabled = false;
    let lines = show_status_at(&tasks, &vec![50; 4], &vec![true, true, true, false]);
    let row = |id: &str, name: &str, pid: &str, state: &str, kind: &str, rest: &str| {
        format!("{:<18} {:<16} {:<8} {:<10} {:<10} {}", id, name, pid, state, kind, rest)
    };
    let details = "/in delete=true conflict=Rename stable=2s";
    assert_eq!(
        lines,
        [
            row("ID", "NAME", "PID", "STATE", "TYPE", "DETAILS"),
            row("task_1700000000123", "zips", "7", "RUNNING", "unzip", details),
            row("b", "-", "8", "DISABLED", "unzip", details),
            row("c", "-", "9", "PAUSED", "unzip", details),
            row("d", "-", "10", "STOPPED", "unzip", details),
        ]
    );
    assert_eq!(lines[4], status_row(&tasks[3], 50, false));
    tasks[2].paused_until = None;
    let lines = show_status(&tasks, &vec![true; 4]);
    assert_eq!(lines[3], row("c", "-", "9", "DISABLED", "unzip", details));
    assert_eq!(show_status(&Vec::new(), &Vec::new()), ["No daemons found."]);
}

#[test]
fn paths_of_tasks() {
    assert!(task_path_exists(&unzip(), true, false));
    assert!(!task_path_exists(&unzip(), false, true));
    assert!(!task_path_exists(&mirror(None, false), true, false));
    assert!(task_path_exists(&mirror(None, false), true, true));
    assert!(task_path_exists(&mirror(Some("m@t"), false), true, false));
    assert!(!task_path_exists(&mirror(Some("m@t"), false), false, true));
}

#[test]
fn large_logs_are_put_aside() {
    assert_eq!(MAX_LOG_SIZE, 10 * 1024 * 1024);
    assert!(rotate_logs(MAX_LOG_SIZE + 1, MAX_LOG_SIZE));
    assert!(!rotate_logs(MAX_LOG_SIZE, MAX_LOG_SIZE));
    assert!(is_log(Some("log")));
    assert!(!is_log(Some("1")));
    assert!(!is_log(None));
    assert_eq!(rotated_extension(), "log.1");
}

#[test]
fn search_for_issues_changes_nothing() {
    let mut tasks = vec![task("", None, 1), task("b", Some("n"), 2), task("c", None, 3)];
    tasks[2].enabled = false;
    let (lines, changed) = diagnose(
        &mut tasks,
        &vec![true, false, false],
        &vec![true, false, true],
        false,
        &vec![5, 6, 7],
        9,
    );
    assert!(!changed);
    assert_eq!(tasks[0].id, "");
    assert_eq!(
        lines,
        [
            "missing id for PID 1",
            "stopped task: n pid=2",
            "missing path: /in delete=true conflict=Rename stable=2s",
        ]
    );
}

#[test]
fn repair_gives_identifiers() {
    let mut tasks = vec![task("", None, 1)];
    let (lines, changed) =
        diagnose(&mut tasks, &vec![false], &vec![true], true, &vec![5], 9);
    assert!(changed);
    assert_eq!(tasks[0].id, "task_5_9");
    assert_eq!(lines, ["missing id for PID 1", "stopped task: task_5_9 pid=1"]);
}

#[test]
fn repair_drops_dead_tasks() {
    let mut tasks = vec![task("a", None, 1), task("b", None, 2), task("c", None, 3), task("d", None, 4)];
    for t in tasks.iter_mut().skip(1) {
        t.enabled = false;
    }
    let dropped = drop_dead_tasks(
        &mut tasks,
        &vec![false, true, false, false],
        &vec![false, false, true, false],
    );
    assert!(dropped);
    let ids: Vec<&str> = tasks.iter().map(|t| t.id.as_str()).collect();
    assert_eq!(ids, ["a", "b", "c"]);
    assert!(!drop_dead_tasks(&mut tasks, &vec![true; 3], &vec![true; 3]));
}

#[test]
fn end_of_a_search() {
    assert_eq!(closing_lines(false, 0), ["No issues found."]);
    assert_eq!(closing_lines(true, 2), ["Repair complete.", "Found 2 issue(s)."]);
}

#[test]
fn lines_agree_with_the_standard_library() {
    for text in ["", "\n", "a", "a\n", "a\nb", "a\r\nb\r\n", "\n\na", "a\r\r\n", "\r\n"] {
        let expected: Vec<&str> = text.lines().collect();
        assert_eq!(lines_of(text), expected);
    }
    assert_eq!(lines_of("a\r"), ["a\r"]);
}

#[test]
fn history_shows_the_last_hundred_lines() {
    let text: String = (0..150).map(|i| format!("{}\n", i)).collect();
    let lines = latest_lines(&text);
    assert_eq!(lines.len(), 100);
    assert_eq!(lines[0], "149");
    assert_eq!(lines[99], "50");
    assert_eq!(latest_lines("a\nb"), ["b", "a"]);
}

#[test]
fn history_shows_what_was_asked() {
    let event = |ts, task: Option<&str>, level: &str| {
        Some(HistoryEvent {
            ts,
            task: task.map(|s| s.to_string()),
            level: level.to_string(),
            message: "m".to_string(),
        })
    };
    let events = vec![event(3, None, "info"), None, event(-2, Some("t"), "error"), event(1, Some("u"), "error")];
    assert_eq!(show_history(&events, None, false), ["3 [info] m", "-2 [error] m", "1 [error] m"]);
    assert_eq!(show_history(&events, None, true), ["-2 [error] m", "1 [error] m"]);
    assert_eq!(show_history(&events, Some("t"), false), ["-2 [error] m"]);
    assert!(show_history(&events, Some("v"), true).is_empty());
}

#[test]
fn last_record_is_taken_back() {
    let mut text = String::new();
    assert_eq!(pop_record(&text), None);
    text.push_str(&record_line("one"));
    text.push_str(&record_line("two"));
    let (line, rest) = pop_record(&text).unwrap();
    assert_eq!((line.as_str(), rest.as_str()), ("two", "one\n"));
    let (line, rest) = pop_record(&rest).unwrap();
    assert_eq!((line.as_str(), rest.as_str()), ("one", ""));
    assert_eq!(pop_record(&rest), None);
    assert_eq!(pop_record("a\nb\nc\n").unwrap().1, "a\nb\n");
    assert_eq!(pop_record("a\nb\nc").unwrap().1, "a\nb\n");
}

#[test]
fn records_go_on_after_undoing() {
    let mut text = record_line("one") + &record_line("two");
    text = pop_record(&text).unwrap().1;
    text.push_str(&record_line("three"));
    assert_eq!(lines_of(&text), ["one", "three"]);
    let (line, rest) = pop_record(&text).unwrap();
    assert_eq!((line.as_str(), rest.as_str()), ("three", "one\n"));
}

#[test]
fn resuming_all_tasks_keeps_the_others() {
    let mut tasks = vec![task("a", None, 1), task("b", None, 2), task("c", None, 3)];
    tasks[1].enabled = false;
    let loaded = tasks.clone();
    let mut pid = 10;
    for old in loaded {
        if should_restart(&old) {
            state().remove_task_by_pid(&mut tasks, old.pid);
            state().add_task(&mut tasks, task(&format!("{}2", old.id), None, pid));
            pid += 1;
        }
    }
    let ids: Vec<&str> = tasks.iter().map(|t| t.id.as_str()).collect();
    assert_eq!(ids, ["b", "a2", "c2"]);
}

#[test]
fn what_is_said_of_undoing() {
    assert_eq!(nothing_to_undo(), "Nothing to undo.");
    assert_eq!(undo_message("/a", "/b", true), "Moved /b back to /a");
    assert_eq!(undo_message("/a", "/b", false), "Cannot undo; /b no longer exists.");
}

#[test]
fn logs_are_shown_in_pages() {
    assert!(log_pages("").is_empty());
    let text = |n: usize| -> String { (0..n).map(|i| format!("line {}\n", i)).collect() };
    for n in [1, 24, 25, 26, 50, 51] {
        let pages = log_pages(&text(n));
        assert_eq!(pages.len(), n.div_ceil(25));
        let all: Vec<String> = pages.iter().flatten().cloned().collect();
        assert_eq!(all, lines_of(&text(n)));
        for page in &pages[..pages.len() - 1] {
            assert_eq!(page.len(), 25);
        }
    }
}

#[test]
fn answers_between_pages() {
    assert!(quits("q\n"));
    assert!(quits("  Q \r\n"));
    assert!(!quits("\n"));
    assert!(!quits("quit"));
}

#[test]
fn logs_of_processes() {
    assert_eq!(parse_pid("42"), Some(42));
    assert_eq!(parse_pid("4294967295"), Some(u32::MAX));
    assert_eq!(parse_pid("4294967296"), None);
    assert_eq!(parse_pid("zips"), None);
    assert_eq!(no_logs(7, "/c/7.log"), "No logs found for PID 7 at /c/7.log");
}

#[test]
fn notification_is_a_script() {
    let line = send_notification(Platform::Windows, "it's", "don't").unwrap();
    assert_eq!(line.program, "powershell.exe");
    assert_eq!(
        line.args,
        [
            "-NoProfile",
            "-WindowStyle",
            "Hidden",
            "-Command",
            "$wshell=New-Object -ComObject Wscript.Shell;$wshell.Popup('don''t',3,'it''s',64)|Out-Null"
        ]
    );
    assert!(send_notification(Platform::Unix, "a", "b").is_none());
}

#[test]
fn tray_is_a_script() {
    let script = tray_script("C:\\afm.exe");
    assert!(script.starts_with("\nAdd-Type -AssemblyName System.Windows.Forms\n"));
    assert!(script.contains(
        "\n$status.add_Click({ Start-Process -FilePath 'C:\\afm.exe' -ArgumentList 'status' })\n"
    ));
    assert!(script.contains(
        "'C:\\afm.exe' -ArgumentList 'resume' -WindowStyle Hidden })\n$doctor = $menu.Items.Add('Doctor')\n"
    ));
    assert!(script.ends_with("\n[System.Windows.Forms.Application]::Run()\n"));
    assert_eq!(script.matches("C:\\afm.exe").count(), 3);
    let line = launch_tray("C:\\tray.ps1");
    assert_eq!(line.program, "powershell.exe");
    assert_eq!(
        line.args,
        [
            "-NoProfile", "-ExecutionPolicy", "Bypass", "-WindowStyle", "Hidden", "-File",
            "C:\\tray.ps1"
        ]
    );
}

#[test]
fn startup_is_a_script() {
    assert_eq!(
        startup_script("C:\\a\"b.exe"),
        "Set shell = CreateObject(\"WScript.Shell\")\r\nshell.Run \"cmd.exe /d /c \"\"C:\\a\"\"b.exe\"\" resume\", 0, False\r\n"
    );
    assert_eq!(handle_startup("C:\\s.vbs"), "wscript.exe //B //Nologo \"C:\\s.vbs\"");
}

#[test]
fn hints_and_templates() {
    assert_eq!(handle_init().len(), 4);
    assert_eq!(handle_init()[1], "  afm unzip ~/Downloads --name downloads-zip");
    assert_eq!(
        show_template(Some("photos-backup")),
        ["afm mirror ~/Pictures D:\\PhotoBackup --name photos-backup"]
    );
    assert_eq!(
        show_template(Some("zip-extractor")),
        ["afm unzip ~/Downloads --name zip-extractor --on-conflict rename"]
    );
    assert_eq!(show_template(Some("downloads-cleanup")).len(), 1);
    assert_eq!(show_template(Some("school-folder-sort")).len(), 1);
    let all = ["downloads-cleanup", "zip-extractor", "photos-backup", "school-folder-sort"];
    assert_eq!(show_template(None), all);
    assert_eq!(show_template(Some("other")), all);
}

#[test]
fn common_tasks_are_created_by_asking() {
    assert_eq!(
        starter_question(),
        "Create one now? (1: unzip, 2: sort, 3: clean, Enter: none) "
    );
    assert_eq!(choose_starter(" 1\n"), Some(Starter::Unzip));
    assert_eq!(choose_starter("2"), Some(Starter::Sort));
    assert_eq!(choose_starter("3\r\n"), Some(Starter::Clean));
    assert_eq!(choose_starter("\n"), None);
    let answers = |list: &[&str]| list.iter().map(|s| s.to_string()).collect::<Vec<String>>();
    assert_eq!(starter_questions(Starter::Unzip), ["Folder to watch: ", "Name of the task: "]);
    assert!(matches!(
        starter_command(Starter::Unzip, &answers(&["/in\n", " zips\n"])),
        Some(Commands::Unzip { path, no_delete: false, name: Some(n), stable_secs: 2, .. })
            if path == "/in" && n == "zips"
    ));
    assert_eq!(starter_questions(Starter::Sort).len(), 3);
    assert!(matches!(
        starter_command(Starter::Sort, &answers(&["/in", "*.pdf=/docs", "n"])),
        Some(Commands::Sort { rules, dry_run: false, .. }) if rules == ["*.pdf=/docs"]
    ));
    assert_eq!(starter_questions(Starter::Clean).len(), 4);
    assert!(matches!(
        starter_command(Starter::Clean, &answers(&["/in", "30d", "/old", "n"])),
        Some(Commands::Clean { older_than, move_to: Some(m), scp: None, port_scp: 22, .. })
            if older_than == "30d" && m == "/old"
    ));
    assert!(starter_command(Starter::Clean, &answers(&["/in", "30d", " \n", "n"])).is_none());
}

/// The steps that show a log of so many pages when the answers are these.
fn log_steps(pages: usize, replies: &[&str]) -> Vec<LogStep> {
    let mut steps = Vec::new();
    let (mut shown, mut reply) = (0, None);
    let mut replies = replies.iter();
    loop {
        let step = show_logs(pages, shown, reply);
        steps.push(step);
        match step {
            LogStep::Show(i) => {
                shown = i + 1;
                reply = None;
            }
            LogStep::Ask => reply = replies.next().copied(),
            LogStep::End => return steps,
        }
    }
}

#[test]
fn logs_are_shown_page_by_page() {
    let (ask, end) = (LogStep::Ask, LogStep::End);
    let show = |i| LogStep::Show(i);
    assert_eq!(log_steps(0, &[]), [end]);
    assert_eq!(log_steps(1, &[]), [show(0), end]);
    assert_eq!(log_steps(3, &["\n", "\n"]), [show(0), ask, show(1), ask, show(2), end]);
    assert_eq!(log_steps(3, &["\n", " Q\n"]), [show(0), ask, show(1), ask, end]);
    assert_eq!(log_steps(3, &["q\n"]), [show(0), ask, end]);
    assert_eq!(more_prompt(), "--More-- (Enter: next, q: quit) ");
    assert_eq!(closing_line(), "(END)");
}

#[test]
fn moves_are_taken_back_if_the_file_is_there() {
    assert_eq!(
        handle_undo("/a/x", "/b/x", true),
        [
            UndoStep::MakeParent,
            UndoStep::MoveBack,
            UndoStep::Say("Moved /b/x back to /a/x".to_string()),
            UndoStep::DropRecord
        ]
    );
    assert_eq!(
        handle_undo("/a/x", "/b/x", false),
        [
            UndoStep::Say("Cannot undo; /b/x no longer exists.".to_string()),
            UndoStep::DropRecord
        ]
    );
}

#[test]
fn list_is_written_if_mending_changed_it() {
    let sound = vec![task("a", None, 1), task("b", None, 2)];
    let yes = vec![true, true];
    let mut tasks = sound.clone();
    assert!(!handle_doctor(&mut tasks, &yes, &yes, true, false));
    assert!(handle_doctor(&mut tasks, &yes, &yes, true, true));
    assert_eq!(tasks.len(), 2);
    tasks[1].enabled = false;
    let no = vec![true, false];
    assert!(!handle_doctor(&mut tasks, &no, &no, false, true));
    assert_eq!(tasks.len(), 2);
    assert!(handle_doctor(&mut tasks, &no, &no, true, false));
    assert_eq!(tasks.len(), 1);
}
