//! A daemon does the task that it was started for: what its command line says,
//! read option by option, comes to the task again.

use vstd::prelude::*;

use crate::commands::{Commands, DaemonJob};
use crate::commands::{age_fits, is_job, port_or_default};
use crate::commands_laws::same_task;
use crate::daemon::TaskType;
use crate::duration::duration_days;
use crate::duration::days_read_back;
use crate::number::{NumberError, decimal, parse_undoes_decimal, parsed};
use crate::policy::{ConflictArg, ConflictPolicy, conflict_name, conflict_name_reads_back};
use crate::policy::conflict_named;
use crate::remote::normalized;
use crate::text::{opt_text, texts};
use crate::watcher::{MirrorOnce, is_mirror_once};

verus! {

/// Whether the option for a policy, as it is written for `policy`, is read as
/// `arg`.
pub open spec fn reads_policy(arg: ConflictArg, policy: ConflictPolicy) -> bool {
    conflict_named(conflict_name(policy)) == Some(arg)
}

/// Whether an option with a number, as it is written for `n`, is read as `read`
/// where it can be `max` at most.
pub open spec fn reads_number(read: nat, n: nat, max: nat) -> bool {
    parsed(decimal(n), max) == Ok::<nat, NumberError>(read)
}

/// Whether a command is what the command line of the daemon for `task` says,
/// when each option is read for itself.
pub open spec fn is_read_as(task: TaskType, command: Commands) -> bool {
    match (task, command) {
        (
            TaskType::Unzip { path, delete, conflict, stable_secs },
            Commands::Unzip { path: p, no_delete, on_conflict, stable_secs: s, .. },
        ) => {
            &&& p@ == path@
            &&& no_delete == !delete
            &&& reads_policy(on_conflict, conflict)
            &&& reads_number(s as nat, stable_secs as nat, u64::MAX as nat)
        },
        (
            TaskType::Mirror {
                src,
                dest,
                remote,
                port,
                use_rsync,
                conflict,
                stable_secs,
                included,
                excluded,
            },
            Commands::Mirror {
                target_path,
                dest_path,
                scp,
                port_scp,
                rsync,
                on_conflict,
                stable_secs: s,
                included: i,
                excluded: e,
                ..
            },
        ) => {
            &&& target_path@ == src@
            &&& dest_path@ == dest@
            &&& opt_text(scp) == opt_text(remote)
            &&& remote is Some ==> reads_number(
                port_scp as nat,
                port_or_default(port),
                u16::MAX as nat,
            )
            &&& rsync == use_rsync
            &&& reads_policy(on_conflict, conflict)
            &&& reads_number(s as nat, stable_secs as nat, u64::MAX as nat)
            &&& texts(i@) == texts(included@)
            &&& texts(e@) == texts(excluded@)
        },
        (
            TaskType::Sort { path, rules, conflict, stable_secs },
            Commands::Sort { path: p, rules: r, on_conflict, stable_secs: s, .. },
        ) => {
            &&& p@ == path@
            &&& texts(r@) == texts(rules@)
            &&& reads_policy(on_conflict, conflict)
            &&& reads_number(s as nat, stable_secs as nat, u64::MAX as nat)
        },
        (
            TaskType::Clean {
                path,
                older_than_days,
                move_to,
                remote,
                port,
                use_rsync,
                empty_dirs,
                conflict,
            },
            Commands::Clean {
                path: p,
                older_than,
                move_to: m,
                scp,
                port_scp,
                rsync,
                empty_dirs: e,
                on_conflict,
                ..
            },
        ) => {
            &&& p@ == path@
            &&& older_than@ == decimal(older_than_days as nat) + "d"@
            &&& opt_text(m) == opt_text(move_to)
            &&& opt_text(scp) == opt_text(remote)
            &&& remote is Some ==> reads_number(
                port_scp as nat,
                port_or_default(port),
                u16::MAX as nat,
            )
            &&& rsync == use_rsync
            &&& e == empty_dirs
            &&& reads_policy(on_conflict, conflict)
        },
        _ => false,
    }
}

/// Whether a job carries out a task.
pub open spec fn carries_out(job: DaemonJob, task: TaskType) -> bool {
    match task {
        TaskType::Unzip { path, delete, conflict, stable_secs } => job matches
            DaemonJob::WatchArchives { path: p, delete: d, conflict: c, stable_secs: s } && p@
            == path@ && d == delete && c == conflict && s == stable_secs,
        TaskType::Mirror {
            src,
            dest,
            remote,
            port,
            use_rsync,
            conflict,
            stable_secs,
            included,
            excluded,
        } => match remote {
            None => job matches DaemonJob::MirrorHere {
                src: f,
                dest: t,
                conflict: c,
                stable_secs: s,
                included: i,
                excluded: e,
            } && f@ == src@ && t@ == dest@ && c == conflict && s == stable_secs && texts(i@)
                == texts(included@) && texts(e@) == texts(excluded@),
            Some(remote) => if use_rsync {
                job matches DaemonJob::MirrorByRsync { src: f, dest: t, remote: r, port: p } && f@
                    == src@ && t@ == dest@ && r@ == remote@ && p == port_or_default(port)
            } else {
                job matches DaemonJob::MirrorByScp { src: f, dest: t, remote: r, port: p } && f@
                    == src@ && t@ == dest@ && r@ == remote@ && p == port_or_default(port)
            },
        },
        TaskType::Sort { path, rules, conflict, stable_secs } => job matches
            DaemonJob::SortFiles { path: p, rules: r, conflict: c, stable_secs: s } && p@ == path@
            && texts(r@) == texts(rules@) && c == conflict && s == stable_secs,
        TaskType::Clean { .. } => job matches DaemonJob::CleanFiles(
            done,
        ) && same_task(done, task),
    }
}

/// A daemon that is started with the command line for a task carries out that
/// task. A task that cleans has to be for files of a day or more, and of an age
/// that can be told in seconds of 64 bits.
pub proof fn daemon_does_its_task(task: TaskType, command: Commands, job: DaemonJob)
    requires
        is_read_as(task, command),
        is_job(command, job),
        task matches TaskType::Clean { older_than_days, .. } ==> 1 <= older_than_days
            && older_than_days * 86400 <= u64::MAX,
    ensures
        age_fits(command),
        command matches Commands::Clean { older_than, .. } ==> duration_days(older_than@) is Ok,
        carries_out(job, task),
{
    match task {
        TaskType::Unzip { conflict, stable_secs, .. } => {
            conflict_name_reads_back(conflict);
            parse_undoes_decimal(stable_secs as nat, u64::MAX as nat);
        },
        TaskType::Mirror { port, conflict, stable_secs, .. } => {
            conflict_name_reads_back(conflict);
            parse_undoes_decimal(stable_secs as nat, u64::MAX as nat);
            parse_undoes_decimal(port_or_default(port), u16::MAX as nat);
        },
        TaskType::Sort { conflict, stable_secs, .. } => {
            conflict_name_reads_back(conflict);
            parse_undoes_decimal(stable_secs as nat, u64::MAX as nat);
        },
        TaskType::Clean { older_than_days, port, conflict, .. } => {
            conflict_name_reads_back(conflict);
            days_read_back(older_than_days as nat);
            parse_undoes_decimal(port_or_default(port), u16::MAX as nat);
        },
    }
}

/// A mirror that is run once goes where the daemon for the same task takes it:
/// to the same machine, by the same means and through the same port.
pub proof fn mirror_goes_where_its_daemon_does(task: TaskType, job: DaemonJob, once: MirrorOnce)
    requires
        carries_out(job, task),
        task matches TaskType::Mirror { dest, remote, port, use_rsync, .. } && is_mirror_once(
            dest@,
            opt_text(remote),
            port,
            use_rsync,
            once,
        ),
    ensures
        match job {
            DaemonJob::MirrorHere { .. } => once is Here,
            DaemonJob::MirrorByRsync { dest, remote, port, .. } => once matches
                MirrorOnce::ByRsync { dest: d, remote: r, port: p } && d@ == normalized(dest@)
                && r@ == remote@ && p == port,
            DaemonJob::MirrorByScp { dest, remote, port, .. } => once matches MirrorOnce::ByScp {
                dest: d,
                remote: r,
                port: p,
            } && d@ == normalized(dest@) && r@ == remote@ && p == port,
            _ => false,
        },
{
}

} // verus!
