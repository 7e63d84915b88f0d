use afm::commands::{
    command_fits, daemon_args, daemon_job, daemon_needs, paths_to_resolve, port_to_use,
    prepare_task, spawn_daemon, CommandError, Commands, DaemonJob,
};
use afm::daemon::TaskType;
use afm::paths::Platform;
use afm::policy::{ConflictArg, ConflictPolicy};
use clap::{Arg, ArgAction, ArgMatches, Command};

fn unzip() -> Commands {
    Commands::Unzip {
        path: "in".to_string(),
        no_delete: true,
        name: Some("zips".to_string()),
        on_conflict: ConflictArg::Skip,
        stable_secs: 5,
    }
}

fn mirror(scp: Option<&str>, rsync: bool) -> Commands {
    Commands::Mirror {
        target_path: "src".to_string(),
        dest_path: "dst".to_string(),
        scp: scp.map(|s| s.to_string()),
        port_scp: 2222,
        rsync,
        name: None,
        on_conflict: ConflictArg::Newest,
        stable_secs: 2,
        included: vec!["*.a".to_string()],
        excluded: vec!["*.b".to_string(), "*.c".to_string()],
    }
}

fn sort(rules: &[&str], dry_run: bool) -> Commands {
    Commands::Sort {
        path: "in".to_string(),
        rules: rules.iter().map(|s| s.to_string()).collect(),
        name: None,
        on_conflict: ConflictArg::Rename,
        stable_secs: 2,
        dry_run,
    }
}

fn clean(older_than: &str, scp: Option<&str>, move_to: Option<&str>) -> Commands {
    Commands::Clean {
        path: "in".to_string(),
        older_than: older_than.to_string(),
        move_to: move_to.map(|s| s.to_string()),
        scp: scp.map(|s| s.to_string()),
        port_scp: 22,
        rsync: true,
        empty_dirs: true,
        name: None,
        on_conflict: ConflictArg::Overwrite,
        dry_run: true,
    }
}

fn paths(list: &[&str]) -> Vec<String> {
    list.iter().map(|s| s.to_string()).collect()
}

#[test]
fn paths_that_have_to_be_absolute() {
    assert_eq!(paths_to_resolve(&unzip()).unwrap(), ["in"]);
    assert_eq!(paths_to_resolve(&mirror(None, false)).unwrap(), ["src", "dst"]);
    assert_eq!(paths_to_resolve(&mirror(Some("me@there"), false)).unwrap(), ["src"]);
    assert_eq!(paths_to_resolve(&sort(&["a=b"], false)).unwrap(), ["in"]);
    assert_eq!(paths_to_resolve(&clean("1d", None, None)).unwrap(), ["in"]);
    assert!(paths_to_resolve(&Commands::Status).unwrap().is_empty());
}

#[test]
fn sorting_needs_a_rule() {
    let error = paths_to_resolve(&sort(&[], false)).unwrap_err();
    assert_eq!(error.message(), "sort requires at least one --rule \"pattern=destination\"");
}

#[test]
fn unzip_is_prepared() {
    let p = prepare_task(unzip(), paths(&["/abs/in"]), Platform::Unix).unwrap();
    assert!(matches!(
        &p.task,
        TaskType::Unzip { path, delete: false, conflict: ConflictPolicy::Skip, stable_secs: 5 }
            if path == "/abs/in"
    ));
    assert_eq!(p.name.as_deref(), Some("zips"));
    assert!(!p.dry_run);
    assert_eq!(p.needs, None);
}

#[test]
fn mirror_here_is_prepared() {
    let p = prepare_task(mirror(None, true), paths(&["/abs/src", "/abs/dst"]), Platform::Unix).unwrap();
    assert!(matches!(
        &p.task,
        TaskType::Mirror { src, dest, remote: None, port: Some(2222), use_rsync: true, .. }
            if src == "/abs/src" && dest == "/abs/dst"
    ));
    assert_eq!(p.needs, Some((false, true)));
}

#[test]
fn mirror_elsewhere_keeps_its_destination() {
    let p = prepare_task(mirror(Some("me@there"), false), paths(&["/abs/src"]), Platform::Unix).unwrap();
    assert!(matches!(
        &p.task,
        TaskType::Mirror { dest, remote: Some(r), .. } if dest == "dst" && r == "me@there"
    ));
    assert_eq!(p.needs, Some((true, false)));
}

#[test]
fn folder_is_not_mirrored_into_itself() {
    let error = prepare_task(mirror(None, false), paths(&["/a", "/a/\"b\""]), Platform::Unix).err().unwrap();
    assert_eq!(
        error.message(),
        "Cannot mirror a folder into its own subdirectory: \"/a/\\\"b\\\"\""
    );
}

#[test]
fn paths_are_shown_as_the_standard_library_shows_them() {
    let error = prepare_task(mirror(None, false), paths(&["/it's", "/it's/in"]), Platform::Unix);
    let shown = format!("{:?}", std::path::Path::new("/it's/in"));
    assert!(error.err().unwrap().message().ends_with(&shown));
}

#[test]
fn folder_may_be_mirrored_beside_itself() {
    assert!(prepare_task(mirror(None, false), paths(&["/a", "/ab"]), Platform::Unix).is_ok());
    assert!(prepare_task(mirror(None, false), paths(&["/a", "/a"]), Platform::Unix).is_err());
}

#[test]
fn sort_is_prepared() {
    let p = prepare_task(sort(&["*.a=b"], true), paths(&["/abs/in"]), Platform::Unix).unwrap();
    assert!(p.dry_run);
    assert!(matches!(&p.task, TaskType::Sort { rules, .. } if rules == &["*.a=b"]));
}

#[test]
fn clean_is_prepared() {
    let p = prepare_task(clean("49h", Some("me@there"), Some("old")), paths(&["/in"]), Platform::Unix).unwrap();
    assert!(matches!(
        &p.task,
        TaskType::Clean { older_than_days: 2, move_to: Some(m), port: Some(22), empty_dirs: true, .. }
            if m == "old"
    ));
    assert_eq!(p.needs, Some((true, true)));
    let p = prepare_task(clean("1d", None, None), paths(&["/in"]), Platform::Unix).unwrap();
    assert_eq!(p.needs, None);
}

#[test]
fn age_that_is_no_duration_is_an_error() {
    let error = prepare_task(clean("soon", None, None), paths(&["/in"]), Platform::Unix).err().unwrap();
    assert_eq!(error.message(), "invalid digit found in string");
    assert!(daemon_job(clean("", None, None)).is_err());
}

#[test]
fn other_commands_start_no_daemon() {
    let error = prepare_task(Commands::Status, Vec::new(), Platform::Unix).err().unwrap();
    assert!(matches!(error, CommandError::NoDaemon));
    assert_eq!(error.message(), "Cannot spawn daemon for this command");
    assert!(spawn_daemon(sort(&["a=b"], false)).is_err());
    assert!(spawn_daemon(unzip()).is_ok());
}

#[test]
fn ages_that_cannot_be_counted() {
    assert!(command_fits(&clean("30d", None, None)));
    assert!(!command_fits(&clean("18446744073709551615d", None, None)));
    assert!(command_fits(&Commands::Doctor));
}

#[test]
fn daemons_do_their_jobs() {
    assert!(matches!(
        daemon_job(unzip()).unwrap(),
        DaemonJob::WatchArchives { delete: false, conflict: ConflictPolicy::Skip, .. }
    ));
    assert!(matches!(daemon_job(mirror(None, true)).unwrap(), DaemonJob::MirrorHere { .. }));
    assert!(matches!(
        daemon_job(mirror(Some("m@t"), true)).unwrap(),
        DaemonJob::MirrorByRsync { port: 2222, .. }
    ));
    assert!(matches!(
        daemon_job(mirror(Some("m@t"), false)).unwrap(),
        DaemonJob::MirrorByScp { port: 2222, .. }
    ));
    assert!(matches!(daemon_job(sort(&[], true)).unwrap(), DaemonJob::SortFiles { .. }));
    assert!(matches!(
        daemon_job(clean("3d", None, None)).unwrap(),
        DaemonJob::CleanFiles(TaskType::Clean { older_than_days: 3, .. })
    ));
    assert!(matches!(daemon_job(Commands::Undo).unwrap(), DaemonJob::Nothing));
}

#[test]
fn daemons_look_for_what_they_need() {
    assert_eq!(daemon_needs(&mirror(None, true)), Some((false, true)));
    assert_eq!(daemon_needs(&mirror(Some("m@t"), false)), Some((true, false)));
    assert_eq!(daemon_needs(&unzip()), None);
    assert_eq!(daemon_needs(&clean("1d", Some("m@t"), None)), None);
}

#[test]
fn unzip_is_handed_to_its_daemon() {
    let task = spawn_daemon(unzip()).unwrap();
    assert_eq!(
        daemon_args(&task),
        [
            "--daemon-internal", "unzip", "in", "--no-delete", "--on-conflict", "skip",
            "--stable-secs", "5"
        ]
    );
}

#[test]
fn mirror_is_handed_to_its_daemon() {
    let task = spawn_daemon(mirror(Some("me@there"), true)).unwrap();
    assert_eq!(
        daemon_args(&task),
        [
            "--daemon-internal", "mirror", "src", "dst", "--scp", "me@there", "--port-scp", "2222",
            "--rsync", "--on-conflict", "newest", "--stable-secs", "2", "--include", "*.a",
            "--exclude", "*.b", "--exclude", "*.c"
        ]
    );
    let task = spawn_daemon(mirror(None, false)).unwrap();
    assert_eq!(daemon_args(&task)[4..6], ["--on-conflict", "newest"]);
}

#[test]
fn sort_is_handed_to_its_daemon() {
    let task = TaskType::Sort {
        path: "/in".to_string(),
        rules: vec!["*.a=b".to_string(), "*=c".to_string()],
        conflict: ConflictPolicy::Rename,
        stable_secs: 0,
    };
    assert_eq!(
        daemon_args(&task),
        [
            "--daemon-internal", "sort", "/in", "--rule", "*.a=b", "--rule", "*=c",
            "--on-conflict", "rename", "--stable-secs", "0"
        ]
    );
}

#[test]
fn clean_is_handed_to_its_daemon() {
    let task = TaskType::Clean {
        path: "/in".to_string(),
        older_than_days: 30,
        move_to: Some("/old".to_string()),
        remote: Some("me@there".to_string()),
        port: None,
        use_rsync: true,
        empty_dirs: true,
        conflict: ConflictPolicy::Overwrite,
    };
    assert_eq!(
        daemon_args(&task),
        [
            "--daemon-internal", "clean", "/in", "--older-than", "30d", "--move-to", "/old",
            "--scp", "me@there", "--port-scp", "22", "--rsync", "--empty-dirs", "--on-conflict",
            "overwrite"
        ]
    );
}

#[test]
fn port_is_22_unless_given() {
    assert_eq!(port_to_use(None), 22);
    assert_eq!(port_to_use(Some(2222)), 2222);
}

#[test]
fn age_is_handed_over_as_it_is() {
    for days in [1u64, 2, 30, 365] {
        let task = TaskType::Clean {
            path: "/in".to_string(),
            older_than_days: days,
            move_to: None,
            remote: None,
            port: None,
            use_rsync: false,
            empty_dirs: false,
            conflict: ConflictPolicy::Rename,
        };
        let args = daemon_args(&task);
        let job = daemon_job(clean(&args[4], None, None)).unwrap();
        assert!(matches!(
            job,
            DaemonJob::CleanFiles(TaskType::Clean { older_than_days, .. }) if older_than_days == days
        ));
    }
}

fn parse(args: &[String]) -> ArgMatches {
    let flag = |name: &'static str| Arg::new(name).long(name).action(ArgAction::SetTrue);
    let option = |name: &'static str| Arg::new(name).long(name);
    let list = |name: &'static str| Arg::new(name).long(name).action(ArgAction::Append);
    let mirror = Command::new("mirror")
        .arg(Arg::new("src").required(true))
        .arg(Arg::new("dest").required(true))
        .args(["scp", "port-scp", "name", "on-conflict", "stable-secs"].map(option))
        .arg(flag("rsync"))
        .args(["include", "exclude"].map(list));
    let clean = Command::new("clean")
        .arg(Arg::new("path").required(true))
        .args(["older-than", "move-to", "scp", "port-scp", "name", "on-conflict"].map(option))
        .args(["rsync", "empty-dirs", "dry-run"].map(flag));
    let program = Command::new("afm").arg(flag("daemon-internal")).subcommands([mirror, clean]);
    let words = std::iter::once("afm").chain(args.iter().map(|s| s.as_str()));
    program.try_get_matches_from(words).unwrap()
}

fn value<'a>(matches: &'a ArgMatches, name: &str) -> Option<&'a str> {
    matches.get_one::<String>(name).map(|s| s.as_str())
}

fn many<'a>(matches: &'a ArgMatches, name: &str) -> Vec<&'a String> {
    matches.get_many::<String>(name).unwrap().collect()
}

#[test]
fn daemon_of_mirror_is_handed_its_task() {
    let task = spawn_daemon(mirror(Some("me@there"), true)).unwrap();
    let matches = parse(&daemon_args(&task));
    assert!(matches.get_flag("daemon-internal"));
    let (name, said) = matches.subcommand().unwrap();
    assert_eq!(name, "mirror");
    assert_eq!((value(said, "src"), value(said, "dest")), (Some("src"), Some("dst")));
    assert_eq!((value(said, "scp"), value(said, "port-scp")), (Some("me@there"), Some("2222")));
    assert!(said.get_flag("rsync"));
    assert_eq!(value(said, "name"), None);
    assert_eq!(value(said, "on-conflict"), Some("newest"));
    assert_eq!(value(said, "stable-secs"), Some("2"));
    assert_eq!(many(said, "include"), ["*.a"]);
    assert_eq!(many(said, "exclude"), ["*.b", "*.c"]);
}

#[test]
fn daemon_of_clean_is_handed_its_task() {
    let task = TaskType::Clean {
        path: "/it's \"here\"".to_string(),
        older_than_days: 30,
        move_to: Some("/old=ones".to_string()),
        remote: None,
        port: Some(2222),
        use_rsync: false,
        empty_dirs: true,
        conflict: ConflictPolicy::Overwrite,
    };
    let matches = parse(&daemon_args(&task));
    assert!(matches.get_flag("daemon-internal"));
    let (name, said) = matches.subcommand().unwrap();
    assert_eq!(name, "clean");
    assert_eq!(value(said, "path"), Some("/it's \"here\""));
    assert_eq!(value(said, "older-than"), Some("30d"));
    assert_eq!(value(said, "move-to"), Some("/old=ones"));
    assert_eq!((value(said, "scp"), value(said, "port-scp")), (None, None));
    assert!(!said.get_flag("rsync") && said.get_flag("empty-dirs") && !said.get_flag("dry-run"));
    assert_eq!(value(said, "on-conflict"), Some("overwrite"));
}

#[test]
fn sort_without_rules_is_not_prepared() {
    let command = Commands::Sort {
        path: "in".to_string(),
        rules: Vec::new(),
        name: None,
        on_conflict: ConflictArg::Rename,
        stable_secs: 2,
        dry_run: false,
    };
    let error = prepare_task(command, paths(&["/in"]), Platform::Unix);
    assert!(matches!(error, Err(CommandError::NoRules)));
}
