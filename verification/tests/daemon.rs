use afm::daemon::{
    default_enabled, default_stable_secs, generate_task_id, is_paused, is_paused_at, task_matches, DaemonTask,
    StateManager, TaskType,
};
use afm::paths::Platform;
use afm::policy::ConflictPolicy;

fn task(id: &str, name: Option<&str>, pid: u32) -> DaemonTask {
    DaemonTask {
        id: id.to_string(),
        name: name.map(|s| s.to_string()),
        pid,
        enabled: true,
        paused_until: None,
        task: TaskType::Unzip {
            path: "/in".to_string(),
            delete: true,
            conflict: ConflictPolicy::Rename,
            stable_secs: 2,
        },
    }
}

fn state() -> StateManager {
    StateManager::from_home(Some(b"/home/me/.config".to_vec()), Platform::Unix)
}

fn ids(tasks: &[DaemonTask]) -> Vec<&str> {
    tasks.iter().map(|t| t.id.as_str()).collect()
}

#[test]
fn defaults_of_a_task() {
    assert_eq!(default_stable_secs(), 2);
    assert!(default_enabled());
}

#[test]
fn identifiers_name_time_and_process() {
    assert_eq!(generate_task_id(1700000000123, 42), "task_1700000000123_42");
    assert_ne!(generate_task_id(1, 23), generate_task_id(12, 3));
}

#[test]
fn tasks_are_meant_by_three_names() {
    let t = task("task_1_2", Some("zips"), 99);
    assert!(task_matches(&t, "task_1_2"));
    assert!(task_matches(&t, "zips"));
    assert!(task_matches(&t, "99"));
    assert!(!task_matches(&t, "099"));
    assert!(!task_matches(&t, "ZIPS"));
    assert!(!task_matches(&task("a", None, 1), ""));
}

#[test]
fn pause_ends_with_its_time() {
    let mut t = task("a", None, 1);
    assert!(!is_paused_at(&t, 0));
    t.paused_until = Some(10);
    assert!(is_paused_at(&t, 9));
    assert!(!is_paused_at(&t, 10));
}

#[test]
fn the_clock_ends_pauses() {
    let mut t = task("a", None, 1);
    assert!(!is_paused(&t));
    t.paused_until = Some(1_000_000_000);
    assert!(!is_paused(&t));
    t.paused_until = Some(i64::MAX);
    assert!(is_paused(&t));
}

#[test]
fn state_is_kept_under_the_users_directory() {
    let dir = StateManager::new(Platform::Unix).config_dir();
    let expected = dirs::config_dir().unwrap_or(".".into()).join("autofilemgrd");
    assert_eq!(dir, expected.as_os_str().as_encoded_bytes());
}

#[test]
fn files_of_the_state() {
    let s = state();
    assert_eq!(s.config_dir(), b"/home/me/.config/autofilemgrd");
    assert_eq!(s.state_path(), b"/home/me/.config/autofilemgrd/state.json");
    assert_eq!(s.history_path(), b"/home/me/.config/autofilemgrd/history.jsonl");
    assert_eq!(s.undo_path(), b"/home/me/.config/autofilemgrd/undo.jsonl");
    assert_eq!(s.log_dir(), b"/home/me/.config/autofilemgrd/logs");
    assert_eq!(s.log_path(7), b"/home/me/.config/autofilemgrd/logs/7.log");
    assert_eq!(s.startup_script_path(), b"/home/me/.config/autofilemgrd/startup.vbs");
    assert_eq!(s.tray_script_path(), b"/home/me/.config/autofilemgrd/tray.ps1");
}

#[test]
fn state_without_a_home() {
    let s = StateManager::from_home(None, Platform::Unix);
    assert_eq!(s.config_dir(), b"./autofilemgrd");
    let s = StateManager::from_home(Some(b"C:\\Roaming".to_vec()), Platform::Windows);
    assert_eq!(s.log_path(7), b"C:\\Roaming\\autofilemgrd\\logs\\7.log");
}

#[test]
fn state_under_a_home_that_is_not_text() {
    let s = StateManager::from_home(Some(b"/home/\xff\xfe".to_vec()), Platform::Unix);
    assert_eq!(s.config_dir(), b"/home/\xff\xfe/autofilemgrd");
    assert_eq!(s.log_path(7), b"/home/\xff\xfe/autofilemgrd/logs/7.log");
}

#[test]
fn loading_fills_in_identifiers() {
    let stored = vec![task("", None, 1), task("b", None, 2), task("", None, 3)];
    let (tasks, changed) = state().load_tasks(Some(stored), &vec![10, 11, 12], 5);
    assert!(changed);
    assert_eq!(ids(&tasks), ["task_10_5", "b", "task_12_5"]);
    let (tasks, changed) = state().load_tasks(Some(tasks), &vec![20, 21, 22], 5);
    assert!(!changed);
    assert_eq!(ids(&tasks), ["task_10_5", "b", "task_12_5"]);
    let (tasks, changed) = state().load_tasks(None, &Vec::new(), 5);
    assert!(tasks.is_empty() && !changed);
}

#[test]
fn added_task_takes_the_place_of_its_like() {
    let mut tasks = vec![task("a", None, 1), task("b", None, 2), task("c", None, 3)];
    let mut new = task("b", Some("new"), 3);
    new.enabled = false;
    state().add_task(&mut tasks, new);
    assert_eq!(ids(&tasks), ["a", "b"]);
    assert_eq!(tasks[1].pid, 3);
    assert_eq!(tasks[1].name.as_deref(), Some("new"));
}

#[test]
fn first_task_that_is_meant_is_switched() {
    let mut tasks = vec![task("a", Some("x"), 1), task("b", Some("x"), 2)];
    assert!(state().set_task_enabled(&mut tasks, "x", false));
    assert!(!tasks[0].enabled);
    assert!(tasks[1].enabled);
    assert!(!state().set_task_enabled(&mut tasks, "y", false));
    assert!(tasks[1].enabled);
}

#[test]
fn task_that_is_paused_without_duration_rests() {
    let mut tasks = vec![task("a", None, 1), task("b", None, 2)];
    let until = afm::duration::pause_until(None).unwrap().unwrap();
    assert!(state().set_task_paused_until(&mut tasks, "b", until));
    assert!(!is_paused(&tasks[0]));
    assert!(is_paused(&tasks[1]));
    state().set_task_paused_until(&mut tasks, "b", None);
    assert!(!is_paused(&tasks[1]));
}

#[test]
fn first_task_that_is_meant_is_paused() {
    let mut tasks = vec![task("a", None, 1), task("b", None, 2)];
    assert!(state().set_task_paused_until(&mut tasks, "2", Some(99)));
    assert_eq!(tasks[0].paused_until, None);
    assert_eq!(tasks[1].paused_until, Some(99));
    assert!(state().set_task_paused_until(&mut tasks, "b", None));
    assert_eq!(tasks[1].paused_until, None);
    assert!(!state().set_task_paused_until(&mut tasks, "c", Some(1)));
}

#[test]
fn all_tasks_are_switched() {
    let mut tasks = vec![task("a", None, 1), task("b", None, 2)];
    assert_eq!(state().set_all_tasks_enabled(&mut tasks, false), 2);
    assert!(tasks.iter().all(|t| !t.enabled));
    assert_eq!(state().set_all_tasks_enabled(&mut Vec::new(), false), 0);
}

#[test]
fn tasks_are_removed() {
    let mut tasks = vec![task("a", Some("x"), 1), task("b", Some("x"), 2), task("c", None, 3)];
    assert!(state().remove_task(&mut tasks, "x"));
    assert_eq!(ids(&tasks), ["c"]);
    assert!(!state().remove_task(&mut tasks, "x"));
    state().remove_task_by_pid(&mut tasks, 3);
    assert!(tasks.is_empty());
    let mut tasks = vec![task("a", None, 1), task("b", None, 2)];
    assert_eq!(state().remove_all_tasks(&mut tasks), 2);
    assert!(tasks.is_empty());
}

#[test]
fn first_task_that_is_meant_is_found() {
    let tasks = vec![task("a", Some("x"), 1), task("b", Some("x"), 2)];
    assert_eq!(state().find_task(tasks.clone(), "x").unwrap().id, "a");
    assert_eq!(state().find_task(tasks.clone(), "2").unwrap().id, "b");
    assert!(state().find_task(tasks, "y").is_none());
}

#[test]
fn removed_task_is_not_found_again() {
    let mut tasks = vec![task("a", Some("x"), 1), task("x", None, 2), task("c", None, 3)];
    state().remove_task(&mut tasks, "x");
    assert!(state().find_task(tasks, "x").is_none());
}

#[test]
fn added_task_is_found_by_its_identifier() {
    let mut tasks = vec![task("a", None, 1), task("b", None, 2)];
    state().add_task(&mut tasks, task("n", None, 9));
    assert_eq!(state().find_task(tasks, "n").unwrap().pid, 9);
}

#[test]
fn switching_and_pausing_can_be_taken_back() {
    let mut tasks = vec![task("a", Some("x"), 1), task("b", Some("x"), 2)];
    state().set_task_enabled(&mut tasks, "x", false);
    state().set_task_enabled(&mut tasks, "x", true);
    state().set_task_paused_until(&mut tasks, "x", Some(5));
    state().set_task_paused_until(&mut tasks, "x", None);
    assert_eq!(ids(&tasks), ["a", "b"]);
    assert!(tasks.iter().all(|t| t.enabled && t.paused_until.is_none()));
}
