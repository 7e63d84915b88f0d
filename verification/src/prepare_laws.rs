//! What a command asks for is what its task and its daemon do.

use vstd::prelude::*;
use vstd::string::*;

use crate::commands::{Commands, DaemonJob, Prepared, age_fits, is_job, is_plain_task, is_prepared};
use crate::commands::{mirrors_into_itself, paths_named, port_or_default};
use crate::daemon::TaskType;
use crate::duration::{duration_days, duration_seconds};
use crate::paths::{Platform, is_inside};
use crate::policy::{ConflictArg, ConflictPolicy, conflict_name, conflict_name_reads_back};
use crate::policy::{conflict_named, policy_of};
use crate::policy_laws::policies_bear_their_names;
use crate::round_trip::carries_out;

verus! {

/// The policy of a task.
pub open spec fn policy_kept(task: TaskType) -> ConflictPolicy {
    match task {
        TaskType::Unzip { conflict, .. } => conflict,
        TaskType::Mirror { conflict, .. } => conflict,
        TaskType::Sort { conflict, .. } => conflict,
        TaskType::Clean { conflict, .. } => conflict,
    }
}

/// The policy that a command asks for, if it starts a task.
pub open spec fn policy_asked(command: Commands) -> Option<ConflictArg> {
    match command {
        Commands::Unzip { on_conflict, .. } => Some(on_conflict),
        Commands::Mirror { on_conflict, .. } => Some(on_conflict),
        Commands::Sort { on_conflict, .. } => Some(on_conflict),
        Commands::Clean { on_conflict, .. } => Some(on_conflict),
        _ => None,
    }
}

/// The name that a command gives its task.
pub open spec fn name_given(command: Commands) -> Option<String> {
    match command {
        Commands::Unzip { name, .. } => name,
        Commands::Mirror { name, .. } => name,
        Commands::Sort { name, .. } => name,
        Commands::Clean { name, .. } => name,
        _ => None,
    }
}

/// A command that starts a task, with the paths that it names in their absolute
/// forms.
pub open spec fn made_absolute(command: Commands, resolved: Seq<String>) -> Commands {
    match command {
        Commands::Unzip { path, no_delete, name, on_conflict, stable_secs } => Commands::Unzip {
            path: resolved[0],
            no_delete,
            name,
            on_conflict,
            stable_secs,
        },
        Commands::Mirror {
            target_path,
            dest_path,
            scp,
            port_scp,
            rsync,
            name,
            on_conflict,
            stable_secs,
            included,
            excluded,
        } => Commands::Mirror {
            target_path: resolved[0],
            dest_path: if scp is None {
                resolved[1]
            } else {
                dest_path
            },
            scp,
            port_scp,
            rsync,
            name,
            on_conflict,
            stable_secs,
            included,
            excluded,
        },
        Commands::Sort { path, rules, name, on_conflict, stable_secs, dry_run } => Commands::Sort {
            path: resolved[0],
            rules,
            name,
            on_conflict,
            stable_secs,
            dry_run,
        },
        Commands::Clean {
            path,
            older_than,
            move_to,
            scp,
            port_scp,
            rsync,
            empty_dirs,
            name,
            on_conflict,
            dry_run,
        } => Commands::Clean {
            path: resolved[0],
            older_than,
            move_to,
            scp,
            port_scp,
            rsync,
            empty_dirs,
            name,
            on_conflict,
            dry_run,
        },
        other => other,
    }
}

/// The task that a command comes to follows the policy that was asked for: its
/// policy bears the name from which that was read.
pub proof fn prepared_tasks_follow_the_policy(
    command: Commands,
    resolved: Seq<String>,
    prepared: Prepared,
)
    requires
        is_prepared(command, resolved, prepared),
    ensures
        policy_asked(command) is Some,
        conflict_named(conflict_name(policy_kept(prepared.task))) == policy_asked(command),
        policy_asked(command) == Some(ConflictArg::Skip) <==> policy_kept(prepared.task)
            == ConflictPolicy::Skip,
        policy_asked(command) == Some(ConflictArg::Overwrite) <==> policy_kept(prepared.task)
            == ConflictPolicy::Overwrite,
        policy_asked(command) == Some(ConflictArg::Rename) <==> policy_kept(prepared.task)
            == ConflictPolicy::Rename,
        policy_asked(command) == Some(ConflictArg::Newest) <==> policy_kept(prepared.task)
            == ConflictPolicy::Newest,
{
    policies_bear_their_names(policy_kept(prepared.task));
    conflict_name_reads_back(policy_kept(prepared.task));
}

/// Commands that ask for different policies come to tasks with different
/// policies.
pub proof fn different_policies_are_different_tasks(
    a: Commands,
    b: Commands,
    x: Seq<String>,
    y: Seq<String>,
    p: Prepared,
    q: Prepared,
)
    requires
        is_prepared(a, x, p),
        is_prepared(b, y, q),
    ensures
        policy_asked(a) == policy_asked(b) <==> policy_kept(p.task) == policy_kept(q.task),
{
    prepared_tasks_follow_the_policy(a, x, p);
    prepared_tasks_follow_the_policy(b, y, q);
}

/// The task that a command comes to is carried out by the very job that the
/// command describes once its paths are absolute.
pub proof fn prepared_task_is_the_job_of_the_command(
    command: Commands,
    resolved: Seq<String>,
    prepared: Prepared,
    job: DaemonJob,
)
    requires
        is_prepared(command, resolved, prepared),
        is_job(made_absolute(command, resolved), job),
    ensures
        carries_out(job, prepared.task),
{
}

/// What a command comes to bears the name that was given, is rehearsed if and
/// only if that was asked for, and has the programs for copying looked for if
/// and only if it copies by them: to mirror always, to clean if another machine
/// is named. Whether the target is remote and whether `rsync` was asked for is
/// handed on.
pub proof fn prepared_tasks_keep_the_rest(
    command: Commands,
    resolved: Seq<String>,
    prepared: Prepared,
)
    requires
        is_prepared(command, resolved, prepared),
    ensures
        prepared.name == name_given(command),
        prepared.dry_run <==> (command matches Commands::Sort { dry_run, .. } && dry_run) || (
        command matches Commands::Clean { dry_run, .. } && dry_run),
        command matches Commands::Mirror { scp, rsync, .. } ==> prepared.needs == Some(
            (scp is Some, rsync),
        ),
        command matches Commands::Clean { scp, rsync, .. } ==> (prepared.needs == Some((true, rsync))
            <==> scp is Some) && (prepared.needs is None <==> scp is None),
        command is Unzip || command is Sort ==> prepared.needs is None,
{
}

/// The fields of the task that a command comes to are what the command says.
pub proof fn prepared_tasks_say_what_the_command_says(
    command: Commands,
    resolved: Seq<String>,
    prepared: Prepared,
)
    requires
        is_prepared(command, resolved, prepared),
    ensures
        command is Unzip <==> prepared.task is Unzip,
        command is Mirror <==> prepared.task is Mirror,
        command is Sort <==> prepared.task is Sort,
        command is Clean <==> prepared.task is Clean,
        command matches Commands::Unzip { no_delete, stable_secs, .. } ==> (prepared.task matches
            TaskType::Unzip { path, delete, stable_secs: s, .. } && path == resolved[0] && delete
            != no_delete && s == stable_secs),
        command matches Commands::Mirror {
            dest_path,
            scp,
            port_scp,
            rsync,
            stable_secs,
            included,
            excluded,
            ..
        } ==> (prepared.task matches TaskType::Mirror {
            src,
            dest,
            remote,
            port,
            use_rsync,
            stable_secs: s,
            included: i,
            excluded: e,
            ..
        } && src == resolved[0] && (scp is Some ==> dest == dest_path) && (scp is None ==> dest
            == resolved[1]) && remote == scp && port == Some(port_scp) && use_rsync == rsync && s
            == stable_secs && i == included && e == excluded),
        command matches Commands::Sort { rules, stable_secs, .. } ==> (prepared.task matches
            TaskType::Sort { path, rules: r, stable_secs: s, .. } && path == resolved[0] && r
            == rules && s == stable_secs),
        command matches Commands::Clean { older_than, move_to, scp, port_scp, rsync, empty_dirs, .. }
            ==> (prepared.task matches TaskType::Clean {
            path,
            older_than_days,
            move_to: m,
            remote,
            port,
            use_rsync,
            empty_dirs: e,
            ..
        } && path == resolved[0] && m == move_to && remote == scp && port == Some(port_scp)
            && use_rsync == rsync && e == empty_dirs && (duration_days(older_than@) matches Ok(d)
            ==> (d <= u64::MAX ==> older_than_days == d))),
{
}

/// A command to unpack or to mirror that only starts a daemon comes to the task
/// that its job carries out.
pub proof fn plain_task_is_the_job_of_the_command(command: Commands, task: TaskType, job: DaemonJob)
    requires
        is_plain_task(command, task),
        is_job(command, job),
    ensures
        command is Unzip || command is Mirror,
        carries_out(job, task),
        policy_asked(command) matches Some(arg) && policy_of(arg) == policy_kept(task),
{
}

/// The job of a daemon is of the kind of its command, and what has no task has
/// no job. A job to clean has the age that was given, in whole days.
pub proof fn jobs_are_of_their_kind(command: Commands, job: DaemonJob)
    requires
        is_job(command, job),
    ensures
        command is Unzip <==> job is WatchArchives,
        command is Sort <==> job is SortFiles,
        command is Clean <==> job is CleanFiles,
        (command matches Commands::Mirror { scp, .. } && scp is None) <==> job is MirrorHere,
        (command matches Commands::Mirror { scp, rsync, .. } && scp is Some && rsync) <==> job
            is MirrorByRsync,
        (command matches Commands::Mirror { scp, rsync, .. } && scp is Some && !rsync) <==> job
            is MirrorByScp,
        policy_asked(command) is None <==> job is Nothing,
        command matches Commands::Clean { older_than, .. } ==> (duration_days(older_than@) matches
            Ok(d) ==> (d <= u64::MAX ==> (job matches DaemonJob::CleanFiles(TaskType::Clean {
            older_than_days,
            ..
        }) && older_than_days == d))),
{
}

/// The paths that have to be made absolute are the folder that a task is about,
/// and the destination of a mirror if it is on this machine; the destination on
/// another machine is not one.
pub proof fn paths_of_this_machine_are_named(command: Commands)
    ensures
        command matches Commands::Unzip { path, .. } ==> paths_named(command).len() == 1
            && paths_named(command)[0] == path@,
        command matches Commands::Sort { path, .. } ==> paths_named(command).len() == 1
            && paths_named(command)[0] == path@,
        command matches Commands::Clean { path, .. } ==> paths_named(command).len() == 1
            && paths_named(command)[0] == path@,
        command matches Commands::Mirror { target_path, dest_path, scp, .. } ==> paths_named(
            command,
        )[0] == target_path@ && (scp is None <==> paths_named(command).len() == 2) && (scp is Some
            <==> paths_named(command).len() == 1) && (scp is None ==> paths_named(command)[1]
            == dest_path@),
        policy_asked(command) is None <==> paths_named(command).len() == 0,
{
}

/// A folder is refused as its own mirror if and only if the mirror is on this
/// machine and lies inside the folder; what is done on another machine is not
/// refused.
pub proof fn only_local_mirrors_go_into_themselves(
    command: Commands,
    resolved: Seq<String>,
    platform: Platform,
)
    ensures
        mirrors_into_itself(command, resolved, platform) ==> command is Mirror,
        command matches Commands::Mirror { scp, .. } ==> (mirrors_into_itself(
            command,
            resolved,
            platform,
        ) <==> scp is None && is_inside(platform, resolved[0]@, resolved[1]@)),
{
}

/// The age of a command can be told if and only if it is none to clean, or its
/// age is no duration at all, or one whose seconds are a number of 64 bits.
pub proof fn ages_can_be_told(command: Commands)
    ensures
        !age_fits(command) <==> (command matches Commands::Clean { older_than, .. }
            && duration_seconds(older_than@) matches Ok(n) && n > 18_446_744_073_709_551_615),
{
}

/// A port that is given is used, and 22 where none is.
pub proof fn given_ports_are_used(port: u16)
    ensures
        port_or_default(Some(port)) == port,
        port_or_default(None) == 22,
{
}

} // verus!
