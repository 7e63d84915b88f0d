use afm::paths::Platform;
use afm::remote::{
    command_error, failed_with, mirror_actions, normalize_remote_dest, rsync_label, rsync_once,
    windows_path_to_wsl, ChangeKind, RemoteAction, RemoteClient,
};
use afm::shell::{single_quote_for_shell, CommandLine};

fn words(line: &CommandLine) -> Vec<&str> {
    let mut out = vec![line.program.as_str()];
    out.extend(line.args.iter().map(|s| s.as_str()));
    out
}

#[test]
fn machine_needs_user_and_host() {
    let client = RemoteClient::connect("me@there", 2222).unwrap();
    assert_eq!(client.user_host, "me@there");
    assert_eq!(client.port, 2222);
    assert_eq!(
        RemoteClient::connect("there", 22).unwrap_err(),
        "Invalid remote format. Use user@host"
    );
}

#[test]
fn commands_reach_the_machine() {
    let client = RemoteClient::connect("me@there", 2222).unwrap();
    assert_eq!(
        words(&client.connection_test()),
        ["ssh", "-p", "2222", "-o", "BatchMode=yes", "-o", "ConnectTimeout=5", "me@there", "exit"]
    );
    assert_eq!(
        words(&client.copy_file("/a/b", "c/b")),
        ["scp", "-P", "2222", "/a/b", "me@there:c/b"]
    );
    assert_eq!(
        words(&client.remove_path("c/b")),
        ["ssh", "-p", "2222", "me@there", "rm -rf \"c/b\""]
    );
    assert_eq!(
        words(&client.create_dir("c d")),
        ["ssh", "-p", "2222", "me@there", "mkdir -p \"c d\""]
    );
}

#[test]
fn first_copy_makes_the_directory_and_sends_each_entry() {
    let client = RemoteClient::connect("me@there", 22).unwrap();
    let lines = client.sync_dir(&vec!["/s/a".to_string(), "/s/b".to_string()], "d");
    assert_eq!(lines.len(), 3);
    assert_eq!(words(&lines[0]), ["ssh", "-p", "22", "me@there", "mkdir -p \"d\""]);
    assert_eq!(words(&lines[1]), ["scp", "-r", "-P", "22", "/s/a", "me@there:d"]);
    assert_eq!(words(&lines[2]), ["scp", "-r", "-P", "22", "/s/b", "me@there:d"]);
    assert_eq!(client.sync_dir(&Vec::new(), "d").len(), 1);
}

#[test]
fn home_is_left_to_the_session() {
    assert_eq!(normalize_remote_dest("~/a/~/b".to_string()), "./a/~/b");
    assert_eq!(normalize_remote_dest("~".to_string()), ".");
    assert_eq!(normalize_remote_dest("~x".to_string()), "~x");
    assert_eq!(normalize_remote_dest("/a".to_string()), "/a");
    assert_eq!(normalize_remote_dest(normalize_remote_dest("~/a".to_string())), "./a");
}

#[test]
fn changed_directory_is_made() {
    let r = mirror_actions(ChangeKind::Create, Some("a\\b"), true, false, "d");
    assert_eq!(r.len(), 1);
    assert!(matches!(&r[0], RemoteAction::MakeDir(p) if p == "d/a/b"));
}

#[test]
fn changed_file_is_copied_into_its_directory() {
    let r = mirror_actions(ChangeKind::Modify, Some("a/b.txt"), false, true, "d");
    assert_eq!(r.len(), 2);
    assert!(matches!(&r[0], RemoteAction::MakeParent(p) if p == "d/a"));
    assert!(matches!(&r[1], RemoteAction::Copy(p) if p == "d/a/b.txt"));
    let r = mirror_actions(ChangeKind::Create, Some("b.txt"), false, true, "d");
    assert!(matches!(&r[0], RemoteAction::MakeParent(p) if p == "d"));
}

#[test]
fn removed_path_is_removed() {
    let r = mirror_actions(ChangeKind::Remove, Some("a"), true, true, "d");
    assert_eq!(r.len(), 1);
    assert!(matches!(&r[0], RemoteAction::Remove(p) if p == "d/a"));
}

#[test]
fn other_changes_ask_for_nothing() {
    assert!(mirror_actions(ChangeKind::Other, Some("a"), true, true, "d").is_empty());
    assert!(mirror_actions(ChangeKind::Create, Some("a"), false, false, "d").is_empty());
    assert!(mirror_actions(ChangeKind::Create, None, true, true, "d").is_empty());
    assert!(mirror_actions(ChangeKind::Remove, None, true, true, "d").is_empty());
}

#[test]
fn failures_tell_all_they_know() {
    assert_eq!(failed_with("scp", "exit status: 1"), "scp failed with status exit status: 1");
    assert_eq!(
        command_error("rsync", Some(12), " out \n", ""),
        "rsync failed with status Some(12)\nstdout:\nout\nstderr:\n<empty>"
    );
    assert_eq!(
        command_error("wsl rsync", None, "\t", "bad"),
        "wsl rsync failed with status None\nstdout:\n<empty>\nstderr:\nbad"
    );
    assert_eq!(
        command_error("x", Some(-1), "", ""),
        "x failed with status Some(-1)\nstdout:\n<empty>\nstderr:\n<empty>"
    );
}

#[test]
fn drives_are_found_in_the_subsystem() {
    assert_eq!(windows_path_to_wsl("C:\\Users\\me"), Ok("/mnt/c/Users/me".to_string()));
    assert_eq!(windows_path_to_wsl("\\\\?\\D:\\x"), Ok("/mnt/d/x".to_string()));
    assert_eq!(windows_path_to_wsl("//?/d:/x"), Ok("/mnt/d/x".to_string()));
    assert_eq!(windows_path_to_wsl("c:/"), Ok("/mnt/c/".to_string()));
}

#[test]
fn other_paths_are_not_found_in_the_subsystem() {
    assert_eq!(
        windows_path_to_wsl("\\\\server\\share"),
        Err("Unsupported Windows path for WSL rsync: //server/share".to_string())
    );
    assert!(windows_path_to_wsl("c:x").is_err());
    assert!(windows_path_to_wsl("\u{e4}:/x").is_err());
    assert!(windows_path_to_wsl("").is_err());
}

#[test]
fn folder_is_mirrored_by_one_command() {
    let line = rsync_once(Platform::Unix, "/a b", "~/d", "me@there", 22).unwrap();
    assert_eq!(
        words(&line),
        ["rsync", "-az", "--delete", "-e", "ssh -p 22", "/a b/", "me@there:~/d/"]
    );
    assert_eq!(rsync_label(Platform::Unix), "rsync");
}

#[test]
fn folder_is_mirrored_through_the_subsystem() {
    let line = rsync_once(Platform::Windows, "C:\\it's", "d", "me@there", 22).unwrap();
    assert_eq!(
        words(&line),
        [
            "wsl",
            "sh",
            "-lc",
            "rsync -az --delete -e 'ssh -p 22' '/mnt/c/it'\"'\"'s/' 'me@there:d/'"
        ]
    );
    assert!(rsync_once(Platform::Windows, "relative", "d", "me@there", 22).is_err());
    assert_eq!(rsync_label(Platform::Windows), "wsl rsync");
}

#[test]
fn quotes_are_quoted() {
    assert_eq!(single_quote_for_shell("it's"), "it'\"'\"'s");
    assert_eq!(single_quote_for_shell("plain"), "plain");
}
