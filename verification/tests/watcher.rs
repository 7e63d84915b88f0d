use afm::conflict::{move_with_conflict, Moment, MovePlan};
use afm::paths::Platform;
use afm::policy::ConflictPolicy;
use afm::remote::ChangeKind;
use afm::watcher::{
    brings_files, can_reach_back, clean_action, clean_path, entry_action, extracted, has_to_settle,
    history_event, history_event_at, is_archive, is_recent, mirror_failed, mirror_once,
    remote_move_with_rsync, sort_failed, sort_file, sync_dir_with_rsync, unzip_and_handle,
    unzip_failed, unzip_once, wait_until_stable, ArchiveStep, CleanAction, Cleaning, EntryAction,
    FileStep, Found, MirrorOnce, UnzipOnce,
};

fn found(is_dir: bool, is_empty: bool, is_recent: bool) -> Found {
    Found { is_dir, is_empty, is_recent }
}

const OLD: Found = Found { is_dir: false, is_empty: false, is_recent: false };

fn cleaning(has_remote: bool, has_move_to: bool, use_rsync: bool) -> Cleaning {
    Cleaning { has_remote, has_move_to, use_rsync, empty_dirs: true, dry_run: false }
}

fn said(steps: &[FileStep]) -> Vec<String> {
    steps
        .iter()
        .map(|s| match s {
            FileStep::Say(line) => line.clone(),
            other => panic!("not a line: {:?}", other),
        })
        .collect()
}

#[test]
fn archives_are_known_by_their_extension() {
    assert!(is_archive(Some("zip")));
    assert!(!is_archive(Some("ZIP")));
    assert!(!is_archive(Some("zipx")));
    assert!(!is_archive(None));
}

#[test]
fn archives_come_by_creation_and_change() {
    assert!(brings_files(ChangeKind::Create));
    assert!(brings_files(ChangeKind::Modify));
    assert!(!brings_files(ChangeKind::Remove));
    assert!(!brings_files(ChangeKind::Other));
}

#[test]
fn entries_of_archives() {
    let action = |enclosed, name| entry_action(enclosed, name, false, ConflictPolicy::Skip, None);
    assert_eq!(action(false, "../x"), EntryAction::Skip);
    assert_eq!(action(false, "x/"), EntryAction::Skip);
    assert_eq!(action(true, "x/"), EntryAction::MakeDir);
    assert_eq!(action(true, "x/y"), EntryAction::Extract);
    assert_eq!(action(true, ""), EntryAction::Extract);
}

#[test]
fn entries_whose_path_is_taken() {
    let action = |policy, times| entry_action(true, "x", true, policy, times);
    assert_eq!(action(ConflictPolicy::Skip, None), EntryAction::Skip);
    assert_eq!(action(ConflictPolicy::Overwrite, None), EntryAction::Extract);
    assert_eq!(action(ConflictPolicy::Rename, None), EntryAction::Extract);
    let (old, new) = (Moment { secs: 1, nanos: 0 }, Moment { secs: 2, nanos: 0 });
    assert_eq!(action(ConflictPolicy::Newest, Some((new, old))), EntryAction::Extract);
    assert_eq!(action(ConflictPolicy::Newest, Some((old, new))), EntryAction::Skip);
    assert_eq!(action(ConflictPolicy::Newest, Some((old, old))), EntryAction::Skip);
    let dir = entry_action(true, "x/", true, ConflictPolicy::Skip, None);
    assert_eq!(dir, EntryAction::MakeDir);
}

#[test]
fn archive_goes_behind_its_last_entry() {
    assert_eq!(unzip_and_handle(0, 2, true), ArchiveStep::Entry(0));
    assert_eq!(unzip_and_handle(1, 2, true), ArchiveStep::Entry(1));
    assert_eq!(unzip_and_handle(2, 2, true), ArchiveStep::Remove);
    assert_eq!(unzip_and_handle(2, 2, false), ArchiveStep::Keep);
    assert_eq!(unzip_and_handle(0, 0, true), ArchiveStep::Remove);
}

#[test]
fn waiting_ends_when_the_size_stays() {
    assert!(has_to_settle(2, true));
    assert!(!has_to_settle(0, true));
    assert!(!has_to_settle(2, false));
    assert_eq!(wait_until_stable(5, Some(5)), None);
    assert_eq!(wait_until_stable(5, Some(6)), Some(6));
    assert_eq!(wait_until_stable(5, None), None);
}

#[test]
fn folder_is_copied_by_one_command() {
    let line = sync_dir_with_rsync(
        "C:\\a",
        "/b",
        ConflictPolicy::Rename,
        &vec!["*.txt".to_string()],
        &vec!["x".to_string(), "y".to_string()],
    );
    assert_eq!(line.program, "rsync");
    assert_eq!(
        line.args,
        [
            "-a", "--delete", "--include", "*.txt", "--exclude", "x", "--exclude", "y", "C:/a/",
            "/b/"
        ]
    );
}

#[test]
fn skipping_leaves_files_alone() {
    let line = sync_dir_with_rsync("/a", "/b", ConflictPolicy::Skip, &Vec::new(), &Vec::new());
    assert_eq!(line.args, ["-a", "--ignore-existing", "/a/", "/b/"]);
}

#[test]
fn file_is_sent_by_one_command() {
    let line = remote_move_with_rsync(Platform::Unix, "/a b", "x\\y", "me@there", 22).unwrap();
    assert_eq!(line.program, "rsync");
    assert_eq!(line.args, ["-az", "-e", "ssh -p 22", "/a b", "me@there:x\\y/"]);
}

#[test]
fn file_is_sent_through_the_subsystem() {
    let line =
        remote_move_with_rsync(Platform::Windows, "\\\\?\\C:\\a", "x\\y", "me@there", 22).unwrap();
    assert_eq!(line.program, "wsl");
    assert_eq!(
        line.args,
        ["sh", "-lc", "rsync -az -e 'ssh -p 22' '/mnt/c/a' 'me@there:x/y/'"]
    );
    assert_eq!(
        remote_move_with_rsync(Platform::Windows, "//?/C:/a", "x", "me@there", 22).unwrap_err(),
        "Unsupported Windows path for WSL rsync: //?/C:/a"
    );
}

#[test]
fn sorted_file_is_moved_and_recorded() {
    let steps = sort_file("/a/x.pdf", "/b/x.pdf", MovePlan::Move, false);
    assert_eq!(steps.len(), 4);
    assert!(matches!(steps[0], FileStep::MakeFolder));
    assert!(matches!(steps[1], FileStep::Move));
    assert!(matches!(steps[2], FileStep::RecordUndo));
    assert!(matches!(&steps[3], FileStep::RecordHistory(s) if s == "moved /a/x.pdf -> /b/x.pdf"));
}

#[test]
fn file_that_is_replaced_is_removed_first() {
    let steps = sort_file("/a/x", "/b/x", MovePlan::Replace, false);
    assert!(matches!(
        steps[..],
        [
            FileStep::MakeFolder,
            FileStep::RemoveDest,
            FileStep::Move,
            FileStep::RecordUndo,
            FileStep::RecordHistory(_)
        ]
    ));
    let steps = clean_path(CleanAction::MoveHere, MovePlan::Replace, false, "/a", "/b", "");
    assert!(matches!(
        steps[..],
        [FileStep::MakeParent, FileStep::RemoveDest, FileStep::Move, FileStep::RecordUndo]
    ));
}

#[test]
fn file_that_is_left_is_not_recorded() {
    let plan = move_with_conflict(true, ConflictPolicy::Skip, None);
    assert!(sort_file("/a/x", "/b/x", plan, false).is_empty());
    assert!(clean_path(CleanAction::MoveHere, plan, false, "/a/x", "/b/x", "").is_empty());
}

#[test]
fn rehearsals_only_speak() {
    assert_eq!(said(&sort_file("/a/x", "/b/x", MovePlan::Move, true)), ["would move /a/x -> /b/x"]);
    let plan = |action| said(&clean_path(action, MovePlan::Move, true, "/a/x", "/b/x", "me@there"));
    assert!(plan(CleanAction::Keep).is_empty());
    assert_eq!(plan(CleanAction::DropDir), ["would remove empty dir /a/x"]);
    assert_eq!(plan(CleanAction::SendAway), ["would move /a/x -> me@there:/b/x"]);
    assert_eq!(plan(CleanAction::MoveHere), ["would move /a/x -> /b/x"]);
    assert_eq!(plan(CleanAction::Delete), ["would delete /a/x"]);
}

#[test]
fn cleaning_does_what_was_decided() {
    let plan = |action| clean_path(action, MovePlan::Move, false, "/a/x", "/b/x", "me@there");
    assert!(plan(CleanAction::Keep).is_empty());
    assert!(matches!(plan(CleanAction::DropDir)[..], [FileStep::RemoveEmptyDir]));
    assert!(matches!(plan(CleanAction::SendAway)[..], [FileStep::Send, FileStep::Delete]));
    assert!(matches!(
        plan(CleanAction::MoveHere)[..],
        [FileStep::MakeParent, FileStep::Move, FileStep::RecordUndo]
    ));
    assert!(matches!(plan(CleanAction::Delete)[..], [FileStep::Delete]));
}

#[test]
fn only_empty_directories_go() {
    let how = cleaning(false, false, false);
    assert_eq!(clean_action(found(true, true, false), how), Ok(CleanAction::DropDir));
    assert_eq!(clean_action(found(true, false, false), how), Ok(CleanAction::Keep));
    let how = Cleaning { empty_dirs: false, ..how };
    assert_eq!(clean_action(found(true, true, false), how), Ok(CleanAction::Keep));
}

#[test]
fn young_files_are_kept() {
    for remote in [false, true] {
        for move_to in [false, true] {
            let how = cleaning(remote, move_to, true);
            assert_eq!(clean_action(found(false, false, true), how), Ok(CleanAction::Keep));
        }
    }
}

#[test]
fn old_files_go_where_they_are_to_go() {
    assert_eq!(clean_action(OLD, cleaning(false, false, false)), Ok(CleanAction::Delete));
    assert_eq!(clean_action(OLD, cleaning(false, true, false)), Ok(CleanAction::MoveHere));
    assert_eq!(clean_action(OLD, cleaning(true, true, true)), Ok(CleanAction::SendAway));
    assert_eq!(clean_action(OLD, cleaning(true, false, true)), Ok(CleanAction::Keep));
}

#[test]
fn sending_away_needs_rsync_but_rehearsing_does_not() {
    let how = cleaning(true, true, false);
    assert_eq!(
        clean_action(OLD, how),
        Err("remote clean --move-to currently requires --rsync")
    );
    let how = Cleaning { dry_run: true, ..how };
    assert_eq!(clean_action(OLD, how), Ok(CleanAction::SendAway));
}

#[test]
fn age_counts_from_now() {
    let now = Moment { secs: 1_000_000, nanos: 500 };
    let day_ago = Moment { secs: 1_000_000 - 86_400, nanos: 500 };
    let later = Moment { secs: 1_000_000 - 86_400, nanos: 501 };
    assert!(!is_recent(day_ago, now, 1));
    assert!(is_recent(later, now, 1));
    assert!(is_recent(day_ago, now, 2));
    assert!(!is_recent(now, now, 0));
    assert!(can_reach_back(213_503_982_334_601));
    assert!(!can_reach_back(213_503_982_334_602));
}

#[test]
fn lines_for_the_record() {
    assert_eq!(extracted("/a/b"), "extracted /a/b");
    assert_eq!(unzip_failed("/a.zip", "broken"), "unzip failed /a.zip: broken");
    assert_eq!(mirror_failed("/a", "/b", "full"), "mirror failed /a -> /b: full");
    assert_eq!(sort_failed("/a", "gone"), "sort failed /a: gone");
}

#[test]
fn event_for_the_record() {
    let event = history_event_at(17, "error", "it broke".to_string());
    assert_eq!(event.ts, 17);
    assert_eq!(event.task, None);
    assert_eq!(event.level, "error");
    assert_eq!(event.message, "it broke");
}

#[test]
fn event_of_now() {
    let before = chrono::Utc::now().timestamp();
    let event = history_event("info", "m".to_string());
    let after = chrono::Utc::now().timestamp();
    assert!(before <= event.ts && event.ts <= after);
    assert_eq!((event.level.as_str(), event.message.as_str()), ("info", "m"));
}

#[test]
fn tasks_that_are_run_once() {
    assert_eq!(unzip_once("/a.zip", true), UnzipOnce::Say("would unzip /a.zip".to_string()));
    assert_eq!(unzip_once("/a.zip", false), UnzipOnce::Unpack);
    assert_eq!(
        mirror_once("/a", "/b", None, None, false, true),
        MirrorOnce::Say("would mirror /a -> /b".to_string())
    );
    assert_eq!(mirror_once("/a", "/b", None, Some(2222), true, false), MirrorOnce::Here);
}

#[test]
fn remote_mirror_that_is_run_once_goes_to_its_machine() {
    assert_eq!(
        mirror_once("/a", "~/b", Some("me@there"), Some(2222), true, false),
        MirrorOnce::ByRsync { dest: "./b".to_string(), remote: "me@there".to_string(), port: 2222 }
    );
    assert_eq!(
        mirror_once("/a", "/b", Some("me@there"), None, false, false),
        MirrorOnce::ByScp { dest: "/b".to_string(), remote: "me@there".to_string(), port: 22 }
    );
}
