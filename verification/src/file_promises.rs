//! What the operations that decide about files and tasks promise of whatever
//! they return.

use vstd::prelude::*;
use vstd::string::*;

use crate::arguments::{command_line, says};
use crate::arguments_laws::{can_be_handed_over, daemon_is_handed_its_task};
use crate::commands::{CommandError, Commands, DaemonJob, Prepared, command_fits, daemon_args};
use crate::commands::{daemon_job, daemon_needs, is_job, paths_to_resolve, port_to_use};
use crate::commands::{prepare_task, spawn_daemon};
use crate::conflict::{Moment, MovePlan, can_answer, is_first_free, move_with_conflict, needs_times};
use crate::conflict::{numbered, numbered_name, resolve_conflict};
use crate::daemon::{HistoryEvent, TaskType};
use crate::duration::{duration_days, duration_seconds};
use crate::file_laws::{cleaning_does_what_was_chosen, entries_are_unpacked};
use crate::file_laws::{rehearsed_cleaning_tells_what_it_would_do, sorted_files_are_moved};
use crate::number::decimal;
use crate::paths::{Platform, is_inside};
use crate::policy::{ConflictArg, ConflictPolicy, conflict_name, conflict_named, policy_of};
use crate::policy_laws::{numbered_names_show_their_parts, policies_settle_conflicts};
use crate::prepare_laws::{jobs_are_of_their_kind, made_absolute, name_given, policy_asked};
use crate::prepare_laws::{policy_kept, prepared_task_is_the_job_of_the_command};
use crate::prepare_laws::prepared_tasks_follow_the_policy;
use crate::remote::ChangeKind;
use crate::round_trip::carries_out;
use crate::sorting::{SortError, answer_of, answers_of, choose_rule, fit, is_answer, is_answered};
use crate::sorting::{is_literal, rule_parts, rules_are_parted_at_the_first_equals_sign};
use crate::sorting::{says_sorted, sort_target, sorted, split_rule};
use crate::text::{opt_str, texts};
use crate::watcher::{ArchiveStep, CleanAction, Cleaning, EntryAction, FileStep, Found, Step};
use crate::watcher::{UnzipOnce, brings_files, can_reach_back, clean_action, clean_path};
use crate::watcher::{entry_action, extracted, has_to_settle, history_event_at, is_archive};
use crate::watcher::{is_recent, mirror_failed, sort_failed, sort_file, steps_of, unzip_and_handle};
use crate::watcher::{unzip_failed, unzip_once, wait_until_stable};

verus! {

/// What becomes of a directory: it is dropped if and only if it is empty and
/// empty directories were asked to go, and kept otherwise, whatever else was
/// asked for.
pub proof fn cleaning_chooses_about_directories(
    found: Found,
    how: Cleaning,
    r: Result<CleanAction, &'static str>,
)
    requires
        found.is_dir,
        call_ensures(clean_action, (found, how), r),
    ensures
        r matches Ok(action) && (action == CleanAction::DropDir <==> found.is_empty
            && how.empty_dirs) && (action == CleanAction::Keep <==> !(found.is_empty
            && how.empty_dirs)),
{
}

/// What becomes of a file: a young one is kept; an old one goes where it is
/// told, and it is refused if it would have to go to another machine without
/// `rsync`, unless that is only rehearsed.
pub proof fn cleaning_chooses_about_files(
    found: Found,
    how: Cleaning,
    r: Result<CleanAction, &'static str>,
)
    requires
        !found.is_dir,
        call_ensures(clean_action, (found, how), r),
    ensures
        r is Err <==> !found.is_recent && how.has_move_to && how.has_remote && !how.use_rsync
            && !how.dry_run,
        r matches Err(e) ==> e@ == "remote clean --move-to currently requires --rsync"@,
        r matches Ok(action) ==> {
            &&& action == CleanAction::Delete <==> !found.is_recent && !how.has_move_to
                && !how.has_remote
            &&& action == CleanAction::MoveHere <==> !found.is_recent && how.has_move_to
                && !how.has_remote
            &&& action == CleanAction::SendAway <==> !found.is_recent && how.has_move_to
                && how.has_remote
            &&& action == CleanAction::Keep <==> found.is_recent || how.has_remote
                && !how.has_move_to
        },
{
}

/// Two choices about the same directory differ only if one asks for empty
/// directories to go and the other does not.
pub proof fn other_options_do_not_matter_for_directories(
    found: Found,
    how: Cleaning,
    other: Cleaning,
    r: Result<CleanAction, &'static str>,
    s: Result<CleanAction, &'static str>,
)
    requires
        found.is_dir,
        how.empty_dirs == other.empty_dirs,
        call_ensures(clean_action, (found, how), r),
        call_ensures(clean_action, (found, other), s),
    ensures
        r == s,
{
}

/// Cleaning does what was chosen, and a rehearsal only says so.
pub proof fn cleaning_is_done_in_steps(
    action: CleanAction,
    plan: MovePlan,
    dry_run: bool,
    entry: &str,
    dest: &str,
    remote: &str,
    r: Vec<FileStep>,
)
    requires
        call_ensures(clean_path, (action, plan, dry_run, entry, dest, remote), r),
    ensures
        ({
            let steps = steps_of(r@);
            let n = steps.len() as int;
            &&& action == CleanAction::Keep ==> n == 0
            &&& dry_run && action != CleanAction::Keep ==> n == 1 && steps[0] is Say
            &&& !dry_run && action == CleanAction::DropDir ==> n == 1 && steps[0]
                == Step::RemoveEmptyDir
            &&& !dry_run && action == CleanAction::Delete ==> n == 1 && steps[0] == Step::Delete
            &&& !dry_run && action == CleanAction::SendAway ==> n == 2 && steps[0] == Step::Send
                && steps[1] == Step::Delete
            &&& !dry_run && action == CleanAction::MoveHere ==> {
                &&& plan == MovePlan::Leave <==> n == 0
                &&& plan == MovePlan::Move <==> n == 3
                &&& plan == MovePlan::Replace <==> n == 4
                &&& n > 0 ==> steps[0] == Step::MakeParent && steps[n - 2] == Step::Move
                    && steps[n - 1] == Step::RecordUndo
                &&& n == 4 ==> steps[1] == Step::RemoveDest
            }
            &&& dry_run && action == CleanAction::DropDir ==> steps[0] == Step::Say(
                "would remove empty dir "@ + entry@,
            )
            &&& dry_run && action == CleanAction::Delete ==> steps[0] == Step::Say(
                "would delete "@ + entry@,
            )
            &&& dry_run && action == CleanAction::MoveHere ==> steps[0] == Step::Say(
                "would move "@ + entry@ + " -> "@ + dest@,
            )
            &&& dry_run && action == CleanAction::SendAway ==> steps[0] == Step::Say(
                "would move "@ + entry@ + " -> "@ + (remote@ + ":"@ + dest@),
            )
        }),
{
    cleaning_does_what_was_chosen(plan, entry@, dest@, remote@);
    rehearsed_cleaning_tells_what_it_would_do(plan, entry@, dest@, remote@);
}

/// A file is young if it was changed less than so many days of 24 hours ago.
pub proof fn young_files_are_told_by_their_age(
    modified: Moment,
    now: Moment,
    days: u64,
    r: bool,
    fits: bool,
)
    requires
        call_ensures(is_recent, (modified, now, days), r),
        call_ensures(can_reach_back, (days,), fits),
    ensures
        r <==> now.total() - modified.total() < days * 24 * 60 * 60 * 1_000_000_000,
        fits <==> days * 24 * 60 * 60 <= 18_446_744_073_709_551_615,
{
    assert(days * 24 * 60 * 60 == days * 86400);
}

/// A file that is sorted is moved into its folder and recorded, or left alone
/// with no trace, or only spoken of.
pub proof fn sorting_is_done_in_steps(
    path: &str,
    dest: &str,
    plan: MovePlan,
    dry_run: bool,
    r: Vec<FileStep>,
)
    requires
        call_ensures(sort_file, (path, dest, plan, dry_run), r),
    ensures
        ({
            let steps = steps_of(r@);
            let n = steps.len() as int;
            &&& dry_run ==> n == 1 && steps[0] == Step::Say(
                "would move "@ + path@ + " -> "@ + dest@,
            )
            &&& !dry_run ==> {
                &&& plan == MovePlan::Leave <==> n == 0
                &&& plan == MovePlan::Move <==> n == 4
                &&& plan == MovePlan::Replace <==> n == 5
                &&& n > 0 ==> steps[0] == Step::MakeFolder && steps[n - 3] == Step::Move && steps[n
                    - 2] == Step::RecordUndo && steps[n - 1] == Step::RecordHistory(
                    "moved "@ + path@ + " -> "@ + dest@,
                )
                &&& n == 5 ==> steps[1] == Step::RemoveDest
            }
        }),
{
    sorted_files_are_moved(path@, dest@, plan);
}

/// What gives way at a destination, and which files stay where they are, is
/// settled by the policy.
pub proof fn conflicts_are_settled_by_the_policy(
    dest_exists: bool,
    policy: ConflictPolicy,
    src: Moment,
    dest: Moment,
    r: MovePlan,
    asks: bool,
)
    requires
        src.nanos < 1_000_000_000,
        dest.nanos < 1_000_000_000,
        call_ensures(move_with_conflict, (dest_exists, policy, Some((src, dest))), r),
        call_ensures(needs_times, (dest_exists, policy), asks),
    ensures
        ({
            let later = src.secs > dest.secs || src.secs == dest.secs && src.nanos > dest.nanos;
            &&& r == MovePlan::Replace <==> dest_exists && (policy == ConflictPolicy::Overwrite
                || policy == ConflictPolicy::Newest && later)
            &&& r == MovePlan::Leave <==> dest_exists && (policy == ConflictPolicy::Skip || policy
                == ConflictPolicy::Newest && !later)
        }),
        asks <==> dest_exists && policy == ConflictPolicy::Newest,
{
    policies_settle_conflicts(dest_exists, policy, src, dest);
}

/// Where the times are not asked for, the decision does not depend on them.
pub proof fn decisions_without_times(
    dest_exists: bool,
    policy: ConflictPolicy,
    times: Option<(Moment, Moment)>,
    r: MovePlan,
)
    requires
        !(dest_exists && policy == ConflictPolicy::Newest),
        call_ensures(move_with_conflict, (dest_exists, policy, times), r),
    ensures
        r == MovePlan::Leave <==> dest_exists && policy == ConflictPolicy::Skip,
        r == MovePlan::Replace <==> dest_exists && policy == ConflictPolicy::Overwrite,
{
}

/// A numbered name shows the stem, the number in brackets and the extension.
pub proof fn numbered_names_are_made_of_their_parts(
    stem: Option<&str>,
    ext: Option<&str>,
    number: u32,
    r: String,
)
    requires
        call_ensures(numbered_name, (stem, ext, number), r),
    ensures
        stem is Some && ext is Some ==> r@ == stem->0@ + seq![' ', '('] + decimal(number as nat)
            + seq![')', '.'] + ext->0@,
        stem is Some && ext is None ==> r@ == stem->0@ + seq![' ', '('] + decimal(number as nat)
            + seq![')'],
        stem is None && ext is None ==> r@ == "file"@ + seq![' ', '('] + decimal(number as nat)
            + seq![')'],
        stem is None && ext is Some ==> r@ == "file"@ + seq![' ', '('] + decimal(number as nat)
            + seq![')', '.'] + ext->0@,
{
    let e = match ext {
        Some(ext) => ext@,
        None => seq![],
    };
    let s = match stem {
        Some(stem) => stem@,
        None => "file"@,
    };
    numbered_names_show_their_parts(s, e, number as nat);
}

/// Another name is taken if and only if the path is taken and the policy is to
/// rename, and it is then a free one: where it is settled which names are taken,
/// it is the one with the least number that is free, from 1 to 9999, and if
/// there is none the path is refused.
pub proof fn first_free_name_is_taken<F: Fn(&str) -> bool>(
    path: &str,
    taken: bool,
    policy: ConflictPolicy,
    stem: Option<&str>,
    ext: Option<&str>,
    is_taken: F,
    settled: spec_fn(Seq<char>) -> bool,
    r: Result<Option<String>, String>,
)
    requires
        forall|n: &str, t: bool| #[trigger] is_taken.ensures((n,), t) ==> t == settled(n@),
        call_ensures(resolve_conflict::<F>, (path, taken, policy, stem, ext, is_taken), r),
    ensures
        r matches Ok(None) <==> !(taken && policy == ConflictPolicy::Rename),
        r matches Ok(Some(name)) ==> !settled(name@) && exists|k: nat|
            1 <= k <= 9999 && name@ == #[trigger] numbered(opt_str(stem), opt_str(ext), k)
                && forall|i: nat|
                1 <= i < k ==> settled(#[trigger] numbered(opt_str(stem), opt_str(ext), i)),
        r matches Err(e) ==> e@ == "could not find available duplicate name for "@ + path@ && forall|
            i: nat,
        |
            1 <= i <= 9999 ==> settled(#[trigger] numbered(opt_str(stem), opt_str(ext), i)),
{
    let (s, e) = (opt_str(stem), opt_str(ext));
    if taken && policy == ConflictPolicy::Rename {
        match r {
            Ok(Some(name)) => {
                let k = choose|k: nat| #[trigger]
                    is_first_free(is_taken, s, e, k) && name@ == numbered(s, e, k);
                assert forall|i: nat| 1 <= i < k implies settled(#[trigger] numbered(s, e, i)) by {
                    assert(can_answer(is_taken, numbered(s, e, i), true));
                }
                assert(can_answer(is_taken, numbered(s, e, k), false));
                assert(1 <= k <= 9999);
                assert(name@ == numbered(s, e, k));
            },
            Ok(None) => {},
            Err(_) => {
                assert forall|i: nat| 1 <= i <= 9999 implies settled(#[trigger] numbered(s, e, i)) by {
                    assert(can_answer(is_taken, numbered(s, e, i), true));
                }
            },
        }
    }
}

/// An entry of an archive is unpacked if and only if it stays in the folder, is
/// a file, and what is in its way does not stay by the policy.
pub proof fn entries_are_settled_by_the_policy(
    enclosed: bool,
    name: &str,
    taken: bool,
    policy: ConflictPolicy,
    entry: Moment,
    there: Moment,
    r: EntryAction,
)
    requires
        call_ensures(entry_action, (enclosed, name, taken, policy, Some((entry, there))), r),
    ensures
        ({
            let is_dir = name@.len() > 0 && name@.last() == '/';
            let stays = taken && (policy == ConflictPolicy::Skip || policy == ConflictPolicy::Newest
                && entry.total() <= there.total());
            &&& r == EntryAction::Extract <==> enclosed && !is_dir && !stays
            &&& r == EntryAction::MakeDir <==> enclosed && is_dir
            &&& r == EntryAction::Skip <==> !enclosed || !is_dir && stays
        }),
{
    entries_are_unpacked(enclosed, name@, taken, policy, entry, there);
}

/// Which changes and files are looked at, which step comes next for an archive,
/// and how long a file is waited for.
pub proof fn archives_are_handled(
    extension: Option<&str>,
    kind: ChangeKind,
    done: usize,
    count: usize,
    delete: bool,
    path: &str,
    dry_run: bool,
    zip: bool,
    brings: bool,
    step: ArchiveStep,
    once: UnzipOnce,
)
    requires
        call_ensures(is_archive, (extension,), zip),
        call_ensures(brings_files, (kind,), brings),
        call_ensures(unzip_and_handle, (done, count, delete), step),
        call_ensures(unzip_once, (path, dry_run), once),
    ensures
        zip <==> (extension matches Some(e) && e@ == "zip"@),
        brings <==> kind != ChangeKind::Remove && kind != ChangeKind::Other,
        done < count <==> step == ArchiveStep::Entry(done),
        step == ArchiveStep::Remove <==> done >= count && delete,
        step == ArchiveStep::Keep <==> done >= count && !delete,
        once is Unpack <==> !dry_run,
        once matches UnzipOnce::Say(line) ==> line@ == "would unzip "@ + path@,
{
}

/// A file is waited for if it is to settle and is there; the waiting ends if and
/// only if its size is the same at two looks, or it is gone.
pub proof fn files_settle(
    secs: u64,
    there: bool,
    last: u64,
    size: Option<u64>,
    waits: bool,
    r: Option<u64>,
)
    requires
        call_ensures(has_to_settle, (secs, there), waits),
        call_ensures(wait_until_stable, (last, size), r),
    ensures
        waits <==> secs > 0 && there,
        r is None <==> size is None || size == Some(last),
        r is Some ==> r == size,
{
}

/// A rule is taken apart at its first equals sign.
pub proof fn rules_are_split(rule: &str, r: Option<(String, String)>)
    requires
        call_ensures(split_rule, (rule,), r),
    ensures
        r is None <==> !rule@.contains('='),
        r matches Some((pattern, dest)) ==> rule@ == pattern@.push('=') + dest@
            && !pattern@.contains('='),
{
    if rule@.contains('=') {
        rule@.index_of_first_ensures('=');
        let i = rule@.index_of_first('=')->0;
        assert(rule@ =~= rule@.take(i).push('=') + rule@.skip(i + 1));
        assert forall|j: int| 0 <= j < i implies rule@.take(i)[j] != '=' by {}
    }
}

/// The first rule whose pattern fits decides: if none before it fits or is
/// wrong, the file goes to its folder.
pub proof fn first_rule_that_fits_decides(
    rules: &Vec<String>,
    answers: &Vec<Result<bool, (usize, String)>>,
    k: int,
    r: Result<Option<String>, SortError>,
)
    requires
        call_ensures(choose_rule, (rules, answers), r),
        rules@.len() == answers@.len(),
        0 <= k <= rules@.len(),
        forall|i: int|
            0 <= i < k ==> (#[trigger] rules@[i])@.contains('=') && answers@[i] == Ok::<
                bool,
                (usize, String),
            >(false),
    ensures
        k == rules@.len() ==> r matches Ok(None),
        k < rules@.len() && !rules@[k]@.contains('=') ==> (r matches Err(SortError::BadRule(rule))
            && rule@ == rules@[k]@),
        k < rules@.len() && rules@[k]@.contains('=') ==> match answers@[k] {
            Ok(true) => r matches Ok(Some(dest)) && rule_parts(rules@[k]@) matches Some((_, d))
                && dest@ == d,
            Ok(false) => true,
            Err((at, what)) => r matches Err(SortError::BadPattern { pos, msg }) && pos == at
                && msg@ == what@,
        },
{
    let all = texts(rules@);
    let said = answers_of(answers@);
    assert forall|i: int| 0 <= i < k implies (#[trigger] all[i]).contains('=') && said[i] == fit(
        false,
    ) by {
        assert(rules@[i]@.contains('='));
        assert(said[i] == answer_of(answers@[i]));
    }
    lemma_rules_passed_over(all, said, k);
    if k < rules@.len() {
        assert(all.skip(k)[0] == rules@[k]@);
        assert(said.skip(k)[0] == answer_of(answers@[k]));
    } else {
        assert(all.skip(k) =~= seq![]);
    }
}

proof fn lemma_rules_passed_over(
    rules: Seq<Seq<char>>,
    answers: Seq<Result<bool, (nat, Seq<char>)>>,
    k: int,
)
    requires
        0 <= k <= rules.len(),
        rules.len() == answers.len(),
        forall|i: int|
            0 <= i < k ==> (#[trigger] rules[i]).contains('=') && answers[i] == fit(false),
    ensures
        sorted(rules, answers) == sorted(rules.skip(k), answers.skip(k)),
    decreases k,
{
    if k == 0 {
        assert(rules.skip(0) =~= rules);
        assert(answers.skip(0) =~= answers);
    } else {
        let (rest, said) = (rules.drop_first(), answers.drop_first());
        assert(rules[0].contains('='));
        assert forall|i: int| 0 <= i < k - 1 implies (#[trigger] rest[i]).contains('=') && said[i]
            == fit(false) by {
            assert(rest[i] == rules[i + 1] && said[i] == answers[i + 1]);
        }
        lemma_rules_passed_over(rest, said, k - 1);
        assert(rest.skip(k - 1) =~= rules.skip(k));
        assert(said.skip(k - 1) =~= answers.skip(k));
    }
}

/// A file goes to the folder of the first rule if that is a rule for its ending
/// or for its very name, and it is not sorted at all if there is no rule.
pub proof fn files_are_sorted_by_the_first_rule(
    name: &str,
    rules: &Vec<String>,
    ending: Seq<char>,
    dest: Seq<char>,
    r: Result<Option<String>, SortError>,
)
    requires
        call_ensures(sort_target, (name, rules), r),
        is_literal(ending),
        !ending.contains('='),
        !ending.contains('\\'),
        !ending.contains('/'),
    ensures
        rules@.len() == 0 ==> r matches Ok(None),
        rules@.len() > 0 && rules@[0]@ == (seq!['*'] + ending).push('=') + dest
            && ending.is_suffix_of(name@) ==> (r matches Ok(Some(d)) && d@ == dest),
        rules@.len() > 0 && rules@[0]@ == ending.push('=') + dest && name@ == ending ==> (r matches
            Ok(Some(d)) && d@ == dest),
        rules@.len() == 1 && rules@[0]@ == (seq!['*'] + ending).push('=') + dest
            && !ending.is_suffix_of(name@) ==> r matches Ok(None),
        rules@.len() == 1 && rules@[0]@ == ending.push('=') + dest && name@ != ending ==> r matches
            Ok(None),
        rules@.len() > 0 && !rules@[0]@.contains('=') ==> (r matches Err(SortError::BadRule(rule))
            && rule@ == rules@[0]@),
{
    let all = texts(rules@);
    let answers = choose|answers: Seq<Result<bool, (nat, Seq<char>)>>|
        #![trigger sorted(all, answers)]
        is_answered(name@, all, answers) && says_sorted(r, sorted(all, answers));
    if rules@.len() > 0 {
        let star = seq!['*'] + ending;
        assert(star.skip(1) =~= ending);
        assert forall|i: int| 0 < i < star.len() implies ending.contains(#[trigger] star[i]) by {
            assert(ending[i - 1] == star[i]);
        }
        assert(star[0] == '*');
        assert(!star.contains('=') && !star.contains('\\') && !star.contains('/'));
        rules_are_parted_at_the_first_equals_sign(star, dest);
        rules_are_parted_at_the_first_equals_sign(ending, dest);
        assert(is_answer(name@, all[0], answers[0]));
        assert(all[0] == rules@[0]@);
        if rules@.len() == 1 {
            assert(all.drop_first() =~= seq![]);
            assert(sorted(all.drop_first(), answers.drop_first()) is Stays);
        }
    } else {
        assert(all =~= seq![]);
    }
}

/// A command that starts a task comes to that task: of the same kind, with the
/// policy, the name and the options that were given, carried out by the very job
/// of the command with its paths made absolute. To sort without a rule, to
/// mirror a folder into itself and to clean by an age that is none is refused.
pub proof fn commands_come_to_their_tasks(
    command: Commands,
    resolved: Vec<String>,
    platform: Platform,
    r: Result<Prepared, CommandError>,
    job: DaemonJob,
)
    requires
        call_ensures(prepare_task, (command, resolved, platform), r),
    ensures
        r matches Ok(p) ==> {
            &&& policy_asked(command) is Some
            &&& conflict_named(conflict_name(policy_kept(p.task))) == policy_asked(command)
            &&& policy_asked(command) == Some(ConflictArg::Skip) <==> policy_kept(p.task)
                == ConflictPolicy::Skip
            &&& policy_asked(command) == Some(ConflictArg::Overwrite) <==> policy_kept(p.task)
                == ConflictPolicy::Overwrite
            &&& policy_asked(command) == Some(ConflictArg::Newest) <==> policy_kept(p.task)
                == ConflictPolicy::Newest
            &&& p.name == name_given(command)
            &&& is_job(made_absolute(command, resolved@), job) ==> carries_out(job, p.task)
            &&& command is Unzip || command is Mirror ==> !p.dry_run
        },
        r matches Err(CommandError::NoDaemon) <==> policy_asked(command) is None,
        r matches Err(CommandError::NoRules) <==> (command matches Commands::Sort { rules, .. }
            && rules@.len() == 0),
        r matches Err(CommandError::IntoItself(_)) <==> (command matches Commands::Mirror {
            scp,
            ..
        } && scp is None && is_inside(platform, resolved@[0]@, resolved@[1]@)),
        r matches Err(CommandError::IntoItself(dest)) ==> dest@ == resolved@[1]@,
        r matches Err(CommandError::BadAge(_)) <==> (command matches Commands::Clean {
            older_than,
            ..
        } && duration_days(older_than@) is Err),
        command matches Commands::Sort { rules, stable_secs, dry_run, .. } ==> (r matches Ok(p)
            ==> p.dry_run == dry_run && (p.task matches TaskType::Sort {
            path,
            rules: s,
            stable_secs: t,
            ..
        } && path == resolved@[0] && s == rules && t == stable_secs)),
        command matches Commands::Unzip { no_delete, stable_secs, .. } ==> (r matches Ok(p)
            && p.task matches TaskType::Unzip { path, delete, stable_secs: t, .. } && path
            == resolved@[0] && delete != no_delete && t == stable_secs),
        command matches Commands::Mirror { scp, port_scp, rsync, .. } ==> (r matches Ok(p)
            ==> p.needs == Some((scp is Some, rsync)) && (p.task matches TaskType::Mirror {
            src,
            remote,
            port,
            use_rsync,
            ..
        } && src == resolved@[0] && remote == scp && port == Some(port_scp) && use_rsync == rsync)),
        command matches Commands::Clean { older_than, move_to, scp, empty_dirs, dry_run, .. } ==> (r
            matches Ok(p) ==> p.dry_run == dry_run && (p.task matches TaskType::Clean {
            older_than_days,
            move_to: m,
            remote,
            empty_dirs: e,
            ..
        } && m == move_to && remote == scp && e == empty_dirs && (duration_days(older_than@)
            matches Ok(d) && older_than_days == d as u64))),
{
    if let Ok(p) = r {
        prepared_tasks_follow_the_policy(command, resolved@, p);
        if is_job(made_absolute(command, resolved@), job) {
            prepared_task_is_the_job_of_the_command(command, resolved@, p, job);
        }
    }
}

/// Two commands of which one asks for another policy come to tasks with
/// different policies.
pub proof fn policies_are_kept_apart(
    a: Commands,
    b: Commands,
    x: Vec<String>,
    y: Vec<String>,
    platform: Platform,
    r: Result<Prepared, CommandError>,
    s: Result<Prepared, CommandError>,
)
    requires
        call_ensures(prepare_task, (a, x, platform), r),
        call_ensures(prepare_task, (b, y, platform), s),
        r is Ok,
        s is Ok,
    ensures
        policy_asked(a) == policy_asked(b) <==> policy_kept(r->Ok_0.task) == policy_kept(
            s->Ok_0.task,
        ),
{
    prepared_tasks_follow_the_policy(a, x@, r->Ok_0);
    prepared_tasks_follow_the_policy(b, y@, s->Ok_0);
}

/// The paths that have to be made absolute are those on this machine.
pub proof fn paths_on_this_machine_are_resolved(
    command: Commands,
    r: Result<Vec<String>, CommandError>,
)
    requires
        call_ensures(paths_to_resolve, (&command,), r),
    ensures
        r is Err <==> (command matches Commands::Sort { rules, .. } && rules@.len() == 0),
        command matches Commands::Unzip { path, .. } ==> (r matches Ok(p) && p@.len() == 1 && p@[0]@
            == path@),
        command matches Commands::Sort { path, .. } ==> (r matches Ok(p) ==> p@.len() == 1 && p@[0]@
            == path@),
        command matches Commands::Clean { path, .. } ==> (r matches Ok(p) && p@.len() == 1 && p@[0]@
            == path@),
        command matches Commands::Mirror { target_path, dest_path, scp, .. } ==> (r matches Ok(p)
            && p@[0]@ == target_path@ && (scp is Some <==> p@.len() == 1) && (scp is None <==> p@.len()
            == 2) && (scp is None ==> p@[1]@ == dest_path@)),
{
    if let Ok(p) = r {
        let t = texts(p@);
        assert(t.len() == p@.len());
        if p@.len() > 0 {
            assert(t[0] == p@[0]@);
        }
        if p@.len() > 1 {
            assert(t[1] == p@[1]@);
        }
    }
}

/// A daemon does the job of the kind of its command, with the policy that was
/// asked for.
pub proof fn daemons_do_their_commands(command: Commands, r: Result<DaemonJob, CommandError>)
    requires
        call_ensures(daemon_job, (command,), r),
    ensures
        r is Err <==> (command matches Commands::Clean { older_than, .. } && duration_seconds(
            older_than@,
        ) is Err),
        r matches Ok(job) ==> {
            &&& command is Unzip <==> job is WatchArchives
            &&& command is Sort <==> job is SortFiles
            &&& command is Clean <==> job is CleanFiles
            &&& (command matches Commands::Mirror { scp, .. } && scp is None) <==> job is MirrorHere
            &&& (command matches Commands::Mirror { scp, rsync, .. } && scp is Some && rsync)
                <==> job is MirrorByRsync
            &&& (command matches Commands::Mirror { scp, rsync, .. } && scp is Some && !rsync)
                <==> job is MirrorByScp
            &&& job matches DaemonJob::WatchArchives { conflict, .. } ==> policy_asked(command)
                matches Some(arg) && policy_of(arg) == conflict
            &&& job matches DaemonJob::SortFiles { conflict, .. } ==> policy_asked(command) matches
                Some(arg) && policy_of(arg) == conflict
            &&& job matches DaemonJob::MirrorHere { conflict, .. } ==> policy_asked(command) matches
                Some(arg) && policy_of(arg) == conflict
            &&& job matches DaemonJob::CleanFiles(task) ==> policy_asked(command) matches Some(arg)
                && policy_of(arg) == policy_kept(task)
        },
        command matches Commands::Mirror { target_path, dest_path, scp, port_scp, rsync, .. } ==> (r
            matches Ok(DaemonJob::MirrorByRsync { src, dest, remote, port }) ==> src == target_path
            && dest == dest_path && Some(remote) == scp && port == port_scp),
        command matches Commands::Mirror { target_path, dest_path, scp, port_scp, rsync, .. } ==> (r
            matches Ok(DaemonJob::MirrorByScp { src, dest, remote, port }) ==> src == target_path
            && dest == dest_path && Some(remote) == scp && port == port_scp),
{
    if let Ok(job) = r {
        jobs_are_of_their_kind(command, job);
    }
}

/// A daemon is handed its task on its command line: the words are not refused,
/// and whatever command they say has that task for its job.
pub proof fn daemons_are_handed_their_tasks(
    task: TaskType,
    words: Vec<String>,
    command: Commands,
    r: Result<DaemonJob, CommandError>,
)
    requires
        can_be_handed_over(task),
        task matches TaskType::Clean { older_than_days, .. } ==> 1 <= older_than_days
            && older_than_days * 86400 <= u64::MAX,
        call_ensures(daemon_args, (&task,), words),
        command_line(texts(words@)) matches Some(line) && says(line, command),
        call_ensures(daemon_job, (command,), r),
        r is Ok,
    ensures
        carries_out(r->Ok_0, task),
{
    daemon_is_handed_its_task(task, command, r->Ok_0);
}

/// What a daemon needs, which port is used, and whether an age can be told.
pub proof fn needs_ports_and_ages(
    command: Commands,
    port: Option<u16>,
    needs: Option<(bool, bool)>,
    p: u16,
    fits: bool,
)
    requires
        call_ensures(daemon_needs, (&command,), needs),
        call_ensures(port_to_use, (port,), p),
        call_ensures(command_fits, (&command,), fits),
    ensures
        needs is Some <==> command is Mirror,
        command matches Commands::Mirror { scp, rsync, .. } ==> needs == Some((scp is Some, rsync)),
        port matches Some(given) ==> p == given,
        port is None ==> p == 22,
        !fits <==> (command matches Commands::Clean { older_than, .. } && duration_seconds(
            older_than@,
        ) matches Ok(n) && n > 18_446_744_073_709_551_615),
{
}

/// A command to unpack or to mirror comes to its task, as it stands.
pub proof fn plain_commands_come_to_their_tasks(
    command: Commands,
    r: Result<TaskType, CommandError>,
    job: DaemonJob,
)
    requires
        call_ensures(spawn_daemon, (command,), r),
        is_job(command, job),
    ensures
        r is Ok <==> command is Unzip || command is Mirror,
        r matches Ok(task) ==> carries_out(job, task) && (policy_asked(command) matches Some(arg)
            && policy_of(arg) == policy_kept(task)),
        r matches Err(e) ==> e is NoDaemon,
{
}

/// What the history is told of: the time, the level and the message as they
/// are, and the messages with all that they are about.
pub proof fn events_are_put_down(
    time: i64,
    level: &str,
    message: String,
    path: &str,
    dest: &str,
    error: &str,
    event: HistoryEvent,
    a: String,
    b: String,
    c: String,
    d: String,
)
    requires
        call_ensures(history_event_at, (time, level, message), event),
        call_ensures(extracted, (path,), a),
        call_ensures(unzip_failed, (path, error), b),
        call_ensures(mirror_failed, (path, dest, error), c),
        call_ensures(sort_failed, (path, error), d),
    ensures
        event.ts == time,
        event.level@ == level@,
        event.message == message,
        event.task is None,
        a@ == "extracted "@ + path@,
        b@ == "unzip failed "@ + path@ + ": "@ + error@,
        c@ == "mirror failed "@ + path@ + " -> "@ + dest@ + ": "@ + error@,
        d@ == "sort failed "@ + path@ + ": "@ + error@,
{
}

} // verus!
