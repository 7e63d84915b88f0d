//! The commands of the program: what is asked for, the task that it comes to,
//! and the command line on which a daemon is handed its task.

use vstd::prelude::*;
use vstd::string::*;

use crate::daemon::TaskType;
use crate::duration::{parse_duration_days, seconds_fit};
use crate::duration::{duration_days, duration_fits};
use crate::number::{NumberError, to_decimal};
use crate::paths::{Platform, lies_inside};
use crate::paths::is_inside;
use crate::number::decimal;
use crate::policy::{ConflictArg, ConflictPolicy, conflict_arg};
use crate::policy::{conflict_name, policy_of};
use crate::text::{opt_text, texts};
use crate::text::{debug_text, flagged};
use crate::text::{debug_of, push_flagged, push_text, push_two};

verus! {

/// What the program is asked to do.
#[derive(Clone, Debug)]
pub enum Commands {
    Unzip {
        path: String,
        no_delete: bool,
        name: Option<String>,
        on_conflict: ConflictArg,
        stable_secs: u64,
    },
    Mirror {
        target_path: String,
        dest_path: String,
        scp: Option<String>,
        port_scp: u16,
        rsync: bool,
        name: Option<String>,
        on_conflict: ConflictArg,
        stable_secs: u64,
        included: Vec<String>,
        excluded: Vec<String>,
    },
    Sort {
        path: String,
        rules: Vec<String>,
        name: Option<String>,
        on_conflict: ConflictArg,
        stable_secs: u64,
        dry_run: bool,
    },
    Clean {
        path: String,
        older_than: String,
        move_to: Option<String>,
        scp: Option<String>,
        port_scp: u16,
        rsync: bool,
        empty_dirs: bool,
        name: Option<String>,
        on_conflict: ConflictArg,
        dry_run: bool,
    },
    Status,
    Stop { target: String },
    Disable { target: String },
    Delete { target: String },
    Startup { disable: bool },
    Resume,
    ResumeTask { target: Option<String> },
    Pause { target: String, duration: Option<String> },
    Doctor,
    Repair,
    History { task: Option<String>, failed: bool },
    Export,
    Import { path: String },
    RunOnce { target: String },
    Undo,
    Init,
    Template { name: Option<String> },
    NotifyTest,
    Tray,
    Logs { target: String },
}

/// Why a command cannot be carried out.
#[derive(Clone, Debug)]
pub enum CommandError {
    /// Files are to be sorted, but there is no rule.
    NoRules,
    /// A folder is to be mirrored into itself, to the given path.
    IntoItself(String),
    /// The age of files is not a duration.
    BadAge(NumberError),
    /// The command starts no daemon.
    NoDaemon,
}

impl CommandError {
    /// What [`CommandError::message`] says.
    pub open spec fn message_text(self) -> Seq<char> {
        match self {
            CommandError::NoRules => "sort requires at least one --rule \"pattern=destination\""@,
            CommandError::IntoItself(dest) =>
                "Cannot mirror a folder into its own subdirectory: "@ + debug_text(dest@),
            CommandError::BadAge(e) => e.message_text(),
            CommandError::NoDaemon => "Cannot spawn daemon for this command"@,
        }
    }

    /// The error as text.
    pub fn message(&self) -> (r: String)
        ensures
            r@ == self.message_text(),
    {
        match self {
            CommandError::NoRules =>
                "sort requires at least one --rule \"pattern=destination\"".to_owned(),
            CommandError::IntoItself(dest) => into_itself(debug_of(dest.as_str()).as_str()),
            CommandError::BadAge(e) => e.message().to_owned(),
            CommandError::NoDaemon => "Cannot spawn daemon for this command".to_owned(),
        }
    }
}

/// The message about a folder that is to be mirrored into itself, to a path that
/// is shown like this.
pub fn into_itself(shown: &str) -> (r: String)
    ensures
        r@ == "Cannot mirror a folder into its own subdirectory: "@ + shown@,
{
    let mut out = "Cannot mirror a folder into its own subdirectory: ".to_owned();
    out.append(shown);
    out
}

/// A task that is ready to be started.
pub struct Prepared {
    pub task: TaskType,
    /// The name that the task was given.
    pub name: Option<String>,
    /// Whether the task is only to be rehearsed, once.
    pub dry_run: bool,
    /// What has to be there for the copying, if any is to be looked for:
    /// whether the target is remote, and whether `rsync` was asked for.
    pub needs: Option<(bool, bool)>,
}

/// What a daemon is to do.
#[derive(Clone, Debug)]
pub enum DaemonJob {
    WatchArchives { path: String, delete: bool, conflict: ConflictPolicy, stable_secs: u64 },
    MirrorHere {
        src: String,
        dest: String,
        conflict: ConflictPolicy,
        stable_secs: u64,
        included: Vec<String>,
        excluded: Vec<String>,
    },
    MirrorByRsync { src: String, dest: String, remote: String, port: u16 },
    MirrorByScp { src: String, dest: String, remote: String, port: u16 },
    SortFiles { path: String, rules: Vec<String>, conflict: ConflictPolicy, stable_secs: u64 },
    CleanFiles(TaskType),
    Nothing,
}

/// Whether the age of files that a command speaks of, if it does, can be told
/// in seconds of 64 bits.
pub open spec fn age_fits(command: Commands) -> bool {
    command matches Commands::Clean { older_than, .. } ==> duration_fits(older_than@)
}

/// Whether the age of files that a command speaks of, if it does, can be told
/// in seconds of 64 bits.
pub fn command_fits(command: &Commands) -> (r: bool)
    ensures
        r == age_fits(*command),
{
    match command {
        Commands::Clean { older_than, .. } => seconds_fit(older_than.as_str()),
        _ => true,
    }
}

/// The paths that a command names and that have to be made absolute before it
/// is prepared.
pub open spec fn paths_named(command: Commands) -> Seq<Seq<char>> {
    match command {
        Commands::Unzip { path, .. } => seq![path@],
        Commands::Mirror { target_path, dest_path, scp, .. } => if scp is Some {
            seq![target_path@]
        } else {
            seq![target_path@, dest_path@]
        },
        Commands::Sort { path, .. } => seq![path@],
        Commands::Clean { path, .. } => seq![path@],
        _ => seq![],
    }
}

/// The paths that have to be made absolute before the command is prepared, or
/// the reason why it fails before that: a command to sort without a rule.
pub fn paths_to_resolve(command: &Commands) -> (r: Result<Vec<String>, CommandError>)
    ensures
        match *command {
            Commands::Sort { rules, .. } if rules@.len() == 0 => r == Err::<
                Vec<String>,
                CommandError,
            >(CommandError::NoRules),
            _ => r is Ok && texts(r->Ok_0@) == paths_named(*command),
        },
{
    let mut out: Vec<String> = Vec::new();
    match command {
        Commands::Unzip { path, .. } => {
            push_text(&mut out, path.as_str());
        },
        Commands::Mirror { target_path, dest_path, scp, .. } => {
            push_text(&mut out, target_path.as_str());
            if scp.is_none() {
                push_text(&mut out, dest_path.as_str());
            }
        },
        Commands::Sort { path, rules, .. } => {
            if rules.is_empty() {
                return Err(CommandError::NoRules);
            }
            push_text(&mut out, path.as_str());
        },
        Commands::Clean { path, .. } => {
            push_text(&mut out, path.as_str());
        },
        _ => {},
    }
    assert(texts(out@) =~= paths_named(*command));
    Ok(out)
}

/// The task of a command that only starts a daemon.
pub open spec fn is_plain_task(command: Commands, task: TaskType) -> bool {
    match command {
        Commands::Unzip { path, no_delete, on_conflict, stable_secs, .. } => task
            == (TaskType::Unzip {
            path,
            delete: !no_delete,
            conflict: policy_of(on_conflict),
            stable_secs,
        }),
        Commands::Mirror {
            target_path,
            dest_path,
            scp,
            port_scp,
            rsync,
            on_conflict,
            stable_secs,
            included,
            excluded,
            ..
        } => task == (TaskType::Mirror {
            src: target_path,
            dest: dest_path,
            remote: scp,
            port: Some(port_scp),
            use_rsync: rsync,
            conflict: policy_of(on_conflict),
            stable_secs,
            included,
            excluded,
        }),
        _ => false,
    }
}

/// The task of a command that only starts a daemon: one to unpack archives or
/// to mirror a folder. No other command has one.
pub fn spawn_daemon(command: Commands) -> (r: Result<TaskType, CommandError>)
    ensures
        match command {
            Commands::Unzip { .. } | Commands::Mirror { .. } => r is Ok && is_plain_task(
                command,
                r->Ok_0,
            ),
            _ => r == Err::<TaskType, CommandError>(CommandError::NoDaemon),
        },
{
    match command {
        Commands::Unzip { path, no_delete, on_conflict, stable_secs, .. } => Ok(
            TaskType::Unzip {
                path,
                delete: !no_delete,
                conflict: ConflictPolicy::from(on_conflict),
                stable_secs,
            },
        ),
        Commands::Mirror {
            target_path,
            dest_path,
            scp,
            port_scp,
            rsync,
            on_conflict,
            stable_secs,
            included,
            excluded,
            ..
        } => Ok(
            TaskType::Mirror {
                src: target_path,
                dest: dest_path,
                remote: scp,
                port: Some(port_scp),
                use_rsync: rsync,
                conflict: ConflictPolicy::from(on_conflict),
                stable_secs,
                included,
                excluded,
            },
        ),
        _ => Err(CommandError::NoDaemon),
    }
}

/// Whether the command is to mirror a folder here, into itself, once its paths
/// are absolute.
pub open spec fn mirrors_into_itself(
    command: Commands,
    resolved: Seq<String>,
    platform: Platform,
) -> bool {
    command matches Commands::Mirror { scp, .. } && scp is None && is_inside(
        platform,
        resolved[0]@,
        resolved[1]@,
    )
}

/// Whether `p` is what the command comes to once its paths are absolute.
pub open spec fn is_prepared(command: Commands, resolved: Seq<String>, p: Prepared) -> bool {
    match command {
        Commands::Unzip { no_delete, name, on_conflict, stable_secs, .. } => p == (Prepared {
            task: TaskType::Unzip {
                path: resolved[0],
                delete: !no_delete,
                conflict: policy_of(on_conflict),
                stable_secs,
            },
            name,
            dry_run: false,
            needs: None,
        }),
        Commands::Mirror {
            dest_path,
            scp,
            port_scp,
            rsync,
            name,
            on_conflict,
            stable_secs,
            included,
            excluded,
            ..
        } => p == (Prepared {
            task: TaskType::Mirror {
                src: resolved[0],
                dest: if scp is Some {
                    dest_path
                } else {
                    resolved[1]
                },
                remote: scp,
                port: Some(port_scp),
                use_rsync: rsync,
                conflict: policy_of(on_conflict),
                stable_secs,
                included,
                excluded,
            },
            name,
            dry_run: false,
            needs: Some((scp is Some, rsync)),
        }),
        Commands::Sort { rules, name, on_conflict, stable_secs, dry_run, .. } => p == (Prepared {
            task: TaskType::Sort {
                path: resolved[0],
                rules,
                conflict: policy_of(on_conflict),
                stable_secs,
            },
            name,
            dry_run,
            needs: None,
        }),
        Commands::Clean {
            older_than,
            move_to,
            scp,
            port_scp,
            rsync,
            empty_dirs,
            name,
            on_conflict,
            dry_run,
            ..
        } => p == (Prepared {
            task: TaskType::Clean {
                path: resolved[0],
                older_than_days: duration_days(older_than@)->Ok_0 as u64,
                move_to,
                remote: scp,
                port: Some(port_scp),
                use_rsync: rsync,
                empty_dirs,
                conflict: policy_of(on_conflict),
            },
            name,
            dry_run,
            needs: if scp is Some {
                Some((true, rsync))
            } else {
                None
            },
        }),
        _ => false,
    }
}

/// Makes the task that the command asks for. `resolved` holds the absolute
/// forms of the paths that [`paths_to_resolve`] gave, which are written as the
/// platform writes them.
pub fn prepare_task(command: Commands, resolved: Vec<String>, platform: Platform) -> (r: Result<
    Prepared,
    CommandError,
>)
    requires
        resolved@.len() == paths_named(command).len(),
        age_fits(command),
    ensures
        match command {
            Commands::Unzip { .. } => r is Ok && is_prepared(command, resolved@, r->Ok_0),
            Commands::Sort { rules, .. } => if rules@.len() == 0 {
                r == Err::<Prepared, CommandError>(CommandError::NoRules)
            } else {
                r is Ok && is_prepared(command, resolved@, r->Ok_0)
            },
            Commands::Mirror { .. } => if mirrors_into_itself(command, resolved@, platform) {
                r == Err::<Prepared, CommandError>(CommandError::IntoItself(resolved@[1]))
            } else {
                r is Ok && is_prepared(command, resolved@, r->Ok_0)
            },
            Commands::Clean { older_than, .. } => match duration_days(older_than@) {
                Ok(_) => r is Ok && is_prepared(command, resolved@, r->Ok_0),
                Err(e) => r == Err::<Prepared, CommandError>(CommandError::BadAge(e)),
            },
            _ => r == Err::<Prepared, CommandError>(CommandError::NoDaemon),
        },
{
    let mut resolved = resolved;
    match command {
        Commands::Unzip { no_delete, name, on_conflict, stable_secs, .. } => {
            let path = resolved.swap_remove(0);
            match spawn_daemon(
                Commands::Unzip { path, no_delete, name: None, on_conflict, stable_secs },
            ) {
                Ok(task) => Ok(Prepared { task, name, dry_run: false, needs: None }),
                Err(e) => Err(e),
            }
        },
        Commands::Mirror {
            dest_path,
            scp,
            port_scp,
            rsync,
            name,
            on_conflict,
            stable_secs,
            included,
            excluded,
            ..
        } => {
            let remote = scp.is_some();
            let dest_path = if remote {
                dest_path
            } else {
                let dest = resolved.swap_remove(1);
                if lies_inside(platform, resolved[0].as_str(), dest.as_str()) {
                    return Err(CommandError::IntoItself(dest));
                }
                dest
            };
            let target_path = resolved.swap_remove(0);
            match spawn_daemon(
                Commands::Mirror {
                    target_path,
                    dest_path,
                    scp,
                    port_scp,
                    rsync,
                    name: None,
                    on_conflict,
                    stable_secs,
                    included,
                    excluded,
                },
            ) {
                Ok(task) => Ok(
                    Prepared { task, name, dry_run: false, needs: Some((remote, rsync)) },
                ),
                Err(e) => Err(e),
            }
        },
        Commands::Sort { rules, name, on_conflict, stable_secs, dry_run, .. } => {
            if rules.len() == 0 {
                return Err(CommandError::NoRules);
            }
            let path = resolved.swap_remove(0);
            let conflict = ConflictPolicy::from(on_conflict);
            let task = TaskType::Sort { path, rules, conflict, stable_secs };
            Ok(Prepared { task, name, dry_run, needs: None })
        },
        Commands::Clean {
            older_than,
            move_to,
            scp,
            port_scp,
            rsync,
            empty_dirs,
            name,
            on_conflict,
            dry_run,
            ..
        } => {
            let path = resolved.swap_remove(0);
            let older_than_days: u64 = match parse_duration_days(older_than.as_str()) {
                Ok(days) => days,
                Err(e) => {
                    return Err(CommandError::BadAge(e));
                },
            };
            let needs = if scp.is_some() {
                Some((true, rsync))
            } else {
                None
            };
            let task = TaskType::Clean {
                path,
                older_than_days,
                move_to,
                remote: scp,
                port: Some(port_scp),
                use_rsync: rsync,
                empty_dirs,
                conflict: ConflictPolicy::from(on_conflict),
            };
            Ok(Prepared { task, name, dry_run, needs })
        },
        _ => Err(CommandError::NoDaemon),
    }
}

/// Whether `job` is what a daemon does that was started with the command.
pub open spec fn is_job(command: Commands, job: DaemonJob) -> bool {
    match command {
        Commands::Unzip { path, no_delete, on_conflict, stable_secs, .. } => job
            == (DaemonJob::WatchArchives {
            path,
            delete: !no_delete,
            conflict: policy_of(on_conflict),
            stable_secs,
        }),
        Commands::Mirror {
            target_path,
            dest_path,
            scp,
            port_scp,
            rsync,
            on_conflict,
            stable_secs,
            included,
            excluded,
            ..
        } => match scp {
            Some(remote) => if rsync {
                job == (DaemonJob::MirrorByRsync {
                    src: target_path,
                    dest: dest_path,
                    remote,
                    port: port_scp,
                })
            } else {
                job == (DaemonJob::MirrorByScp {
                    src: target_path,
                    dest: dest_path,
                    remote,
                    port: port_scp,
                })
            },
            None => job == (DaemonJob::MirrorHere {
                src: target_path,
                dest: dest_path,
                conflict: policy_of(on_conflict),
                stable_secs,
                included,
                excluded,
            }),
        },
        Commands::Sort { path, rules, on_conflict, stable_secs, .. } => job
            == (DaemonJob::SortFiles {
            path,
            rules,
            conflict: policy_of(on_conflict),
            stable_secs,
        }),
        Commands::Clean {
            path,
            older_than,
            move_to,
            scp,
            port_scp,
            rsync,
            empty_dirs,
            on_conflict,
            ..
        } => job == DaemonJob::CleanFiles(
            TaskType::Clean {
                path,
                older_than_days: duration_days(older_than@)->Ok_0 as u64,
                move_to,
                remote: scp,
                port: Some(port_scp),
                use_rsync: rsync,
                empty_dirs,
                conflict: policy_of(on_conflict),
            },
        ),
        _ => job == DaemonJob::Nothing,
    }
}

/// What has to be there for the copying before a daemon starts on the command:
/// whether the target is remote, and whether `rsync` was asked for.
pub fn daemon_needs(command: &Commands) -> (r: Option<(bool, bool)>)
    ensures
        r == match *command {
            Commands::Mirror { scp, rsync, .. } => Some((scp is Some, rsync)),
            _ => None,
        },
{
    match command {
        Commands::Mirror { scp, rsync, .. } => Some((scp.is_some(), *rsync)),
        _ => None,
    }
}

/// What a daemon does that was started with the command: nothing at all for a
/// command that starts none.
pub fn daemon_job(command: Commands) -> (r: Result<DaemonJob, CommandError>)
    requires
        age_fits(command),
    ensures
        match command {
            Commands::Clean { older_than, .. } => match duration_days(older_than@) {
                Ok(_) => r is Ok && is_job(command, r->Ok_0),
                Err(e) => r == Err::<DaemonJob, CommandError>(CommandError::BadAge(e)),
            },
            _ => r is Ok && is_job(command, r->Ok_0),
        },
{
    match command {
        Commands::Unzip { path, no_delete, on_conflict, stable_secs, .. } => {
            let conflict = ConflictPolicy::from(on_conflict);
            Ok(DaemonJob::WatchArchives { path, delete: !no_delete, conflict, stable_secs })
        },
        Commands::Mirror {
            target_path,
            dest_path,
            scp,
            port_scp,
            rsync,
            on_conflict,
            stable_secs,
            included,
            excluded,
            ..
        } => {
            let (src, dest, port) = (target_path, dest_path, port_scp);
            match scp {
                Some(remote) => {
                    if rsync {
                        Ok(DaemonJob::MirrorByRsync { src, dest, remote, port })
                    } else {
                        Ok(DaemonJob::MirrorByScp { src, dest, remote, port })
                    }
                },
                None => {
                    let conflict = ConflictPolicy::from(on_conflict);
                    Ok(
                        DaemonJob::MirrorHere {
                            src,
                            dest,
                            conflict,
                            stable_secs,
                            included,
                            excluded,
                        },
                    )
                },
            }
        },
        Commands::Sort { path, rules, on_conflict, stable_secs, .. } => {
            let conflict = ConflictPolicy::from(on_conflict);
            Ok(DaemonJob::SortFiles { path, rules, conflict, stable_secs })
        },
        Commands::Clean {
            path,
            older_than,
            move_to,
            scp,
            port_scp,
            rsync,
            empty_dirs,
            on_conflict,
            ..
        } => {
            let older_than_days: u64 = match parse_duration_days(older_than.as_str()) {
                Ok(days) => days,
                Err(e) => {
                    return Err(CommandError::BadAge(e));
                },
            };
            Ok(
                DaemonJob::CleanFiles(
                    TaskType::Clean {
                        path,
                        older_than_days,
                        move_to,
                        remote: scp,
                        port: Some(port_scp),
                        use_rsync: rsync,
                        empty_dirs,
                        conflict: ConflictPolicy::from(on_conflict),
                    },
                ),
            )
        },
        _ => Ok(DaemonJob::Nothing),
    }
}

/// The port that is used where none is given.
pub open spec fn port_or_default(port: Option<u16>) -> nat {
    match port {
        Some(p) => p as nat,
        None => 22,
    }
}

/// The port that is used, which is 22 where none is given.
pub fn port_to_use(port: Option<u16>) -> (r: u16)
    ensures
        r == port_or_default(port),
{
    match port {
        Some(p) => p,
        None => 22,
    }
}

/// The arguments that name a remote machine.
pub open spec fn remote_args(remote: Option<Seq<char>>, port: Option<u16>) -> Seq<Seq<char>> {
    match remote {
        Some(r) => seq!["--scp"@, r, "--port-scp"@, decimal(port_or_default(port))],
        None => seq![],
    }
}

/// The flag `flag` where it is set.
pub open spec fn flag_args(set: bool, flag: Seq<char>) -> Seq<Seq<char>> {
    if set {
        seq![flag]
    } else {
        seq![]
    }
}

/// The argument `value` behind `flag`, where there is one.
pub open spec fn option_args(flag: Seq<char>, value: Option<Seq<char>>) -> Seq<Seq<char>> {
    match value {
        Some(v) => seq![flag, v],
        None => seq![],
    }
}

/// The arguments that hand the task to a daemon.
pub open spec fn task_args(task: TaskType) -> Seq<Seq<char>> {
    match task {
        TaskType::Unzip { path, delete, conflict, stable_secs } => seq![
            "--daemon-internal"@,
            "unzip"@,
            path@,
        ] + flag_args(!delete, "--no-delete"@) + seq!["--on-conflict"@, conflict_name(conflict)]
            + seq!["--stable-secs"@, decimal(stable_secs as nat)],
        TaskType::Mirror {
            src,
            dest,
            remote,
            port,
            use_rsync,
            conflict,
            stable_secs,
            included,
            excluded,
        } => seq!["--daemon-internal"@, "mirror"@, src@, dest@] + remote_args(
            opt_text(remote),
            port,
        ) + flag_args(use_rsync, "--rsync"@) + seq!["--on-conflict"@, conflict_name(conflict)]
            + seq!["--stable-secs"@, decimal(stable_secs as nat)] + flagged(
            "--include"@,
            texts(included@),
        ) + flagged("--exclude"@, texts(excluded@)),
        TaskType::Sort { path, rules, conflict, stable_secs } => seq![
            "--daemon-internal"@,
            "sort"@,
            path@,
        ] + flagged("--rule"@, texts(rules@)) + seq!["--on-conflict"@, conflict_name(conflict)]
            + seq!["--stable-secs"@, decimal(stable_secs as nat)],
        TaskType::Clean {
            path,
            older_than_days,
            move_to,
            remote,
            port,
            use_rsync,
            empty_dirs,
            conflict,
        } => seq!["--daemon-internal"@, "clean"@, path@] + seq![
            "--older-than"@,
            decimal(older_than_days as nat) + "d"@,
        ] + option_args("--move-to"@, opt_text(move_to)) + remote_args(opt_text(remote), port)
            + flag_args(use_rsync, "--rsync"@) + flag_args(empty_dirs, "--empty-dirs"@) + seq![
            "--on-conflict"@,
            conflict_name(conflict),
        ],
    }
}

fn push_remote(args: &mut Vec<String>, remote: &Option<String>, port: Option<u16>)
    ensures
        texts(final(args)@) == texts(old(args)@) + remote_args(opt_text(*remote), port),
{
    if let Some(r) = remote {
        push_two(args, "--scp", r.as_str());
        push_two(args, "--port-scp", to_decimal(port_to_use(port) as u128).as_str());
    }
    assert(texts(args@) =~= texts(old(args)@) + remote_args(opt_text(*remote), port));
}

fn push_flag(args: &mut Vec<String>, set: bool, flag: &str)
    ensures
        texts(final(args)@) == texts(old(args)@) + flag_args(set, flag@),
{
    if set {
        push_text(args, flag);
    }
    assert(texts(args@) =~= texts(old(args)@) + flag_args(set, flag@));
}

/// The arguments with which the program is started as the daemon of the task.
pub fn daemon_args(task: &TaskType) -> (r: Vec<String>)
    ensures
        texts(r@) == task_args(*task),
{
    let mut args: Vec<String> = Vec::new();
    push_text(&mut args, "--daemon-internal");
    match task {
        TaskType::Unzip { path, delete, conflict, stable_secs } => {
            push_two(&mut args, "unzip", path.as_str());
            assert(texts(args@) =~= seq!["--daemon-internal"@, "unzip"@, path@]);
            push_flag(&mut args, !*delete, "--no-delete");
            push_two(&mut args, "--on-conflict", conflict_arg(*conflict));
            push_two(&mut args, "--stable-secs", to_decimal(*stable_secs as u128).as_str());
        },
        TaskType::Mirror {
            src,
            dest,
            remote,
            port,
            use_rsync,
            conflict,
            stable_secs,
            included,
            excluded,
        } => {
            push_two(&mut args, "mirror", src.as_str());
            push_text(&mut args, dest.as_str());
            assert(texts(args@) =~= seq!["--daemon-internal"@, "mirror"@, src@, dest@]);
            push_remote(&mut args, remote, *port);
            push_flag(&mut args, *use_rsync, "--rsync");
            push_two(&mut args, "--on-conflict", conflict_arg(*conflict));
            push_two(&mut args, "--stable-secs", to_decimal(*stable_secs as u128).as_str());
            push_flagged(&mut args, "--include", included);
            push_flagged(&mut args, "--exclude", excluded);
        },
        TaskType::Sort { path, rules, conflict, stable_secs } => {
            push_two(&mut args, "sort", path.as_str());
            assert(texts(args@) =~= seq!["--daemon-internal"@, "sort"@, path@]);
            push_flagged(&mut args, "--rule", rules);
            push_two(&mut args, "--on-conflict", conflict_arg(*conflict));
            push_two(&mut args, "--stable-secs", to_decimal(*stable_secs as u128).as_str());
        },
        TaskType::Clean {
            path,
            older_than_days,
            move_to,
            remote,
            port,
            use_rsync,
            empty_dirs,
            conflict,
        } => {
            push_two(&mut args, "clean", path.as_str());
            assert(texts(args@) =~= seq!["--daemon-internal"@, "clean"@, path@]);
            let mut age = to_decimal(*older_than_days as u128);
            age.append("d");
            push_two(&mut args, "--older-than", age.as_str());
            let ghost before = texts(args@);
            if let Some(dest) = move_to {
                push_two(&mut args, "--move-to", dest.as_str());
            }
            assert(texts(args@) =~= before + option_args("--move-to"@, opt_text(*move_to)));
            push_remote(&mut args, remote, *port);
            push_flag(&mut args, *use_rsync, "--rsync");
            push_flag(&mut args, *empty_dirs, "--empty-dirs");
            push_two(&mut args, "--on-conflict", conflict_arg(*conflict));
        },
    }
    args
}

} // verus!
