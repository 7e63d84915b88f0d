//! When files are unpacked, moved, sent away, deleted or left alone.

use vstd::prelude::*;
use vstd::string::*;

use crate::conflict::{Moment, MovePlan};
use crate::policy::ConflictPolicy;
use crate::remote::normalized;
use crate::watcher::{CleanAction, Cleaning, EntryAction, Found, MirrorOnce, Step, arrow};
use crate::watcher::{clean_choice, clean_plan, days_fit, entry_choice, is_mirror_once, moving};
use crate::watcher::{recent, sort_plan};

verus! {

/// A directory is dropped if and only if it is empty and empty directories were
/// asked to go; no other option has a say in that, and nothing else becomes of a
/// directory.
pub proof fn empty_directories_are_dropped(found: Found, how: Cleaning, other: Cleaning)
    requires
        found.is_dir,
    ensures
        clean_choice(found, how) == Some(CleanAction::DropDir) <==> found.is_empty
            && how.empty_dirs,
        clean_choice(found, how) == Some(CleanAction::Keep) <==> !(found.is_empty
            && how.empty_dirs),
        how.empty_dirs == other.empty_dirs ==> clean_choice(found, how) == clean_choice(
            found,
            other,
        ),
{
}

/// A file is spared if it is young. An old one is deleted if and only if nowhere
/// was given to bring it to, moved if and only if a folder here was given, and
/// sent away if and only if a folder on another machine was given and `rsync`
/// was asked for; a rehearsal does not ask for that, and it is refused where it
/// is not rehearsed. With a machine and no folder the file is kept.
pub proof fn old_files_go_where_they_are_told(found: Found, how: Cleaning)
    requires
        !found.is_dir,
    ensures
        ({
            let choice = clean_choice(found, how);
            &&& choice == Some(CleanAction::Delete) <==> !found.is_recent && !how.has_move_to
                && !how.has_remote
            &&& choice == Some(CleanAction::MoveHere) <==> !found.is_recent && how.has_move_to
                && !how.has_remote
            &&& choice == Some(CleanAction::SendAway) <==> !found.is_recent && how.has_move_to
                && how.has_remote && (how.use_rsync || how.dry_run)
            &&& choice is None <==> !found.is_recent && how.has_move_to && how.has_remote
                && !how.use_rsync && !how.dry_run
            &&& choice != Some(CleanAction::DropDir)
        }),
{
}

/// Whether a directory is empty does not matter for a file, nor whether empty
/// directories are to go; nor does its age matter for a directory.
pub proof fn files_and_directories_are_told_apart(found: Found, other: Found, how: Cleaning, with: Cleaning)
    requires
        found.is_dir == other.is_dir,
        found.is_dir ==> found.is_empty == other.is_empty,
        !found.is_dir ==> found.is_recent == other.is_recent,
        with == (Cleaning { empty_dirs: with.empty_dirs, ..how }),
        found.is_dir ==> with.empty_dirs == how.empty_dirs,
    ensures
        clean_choice(found, how) == clean_choice(other, with),
{
}

/// A file is young for an age of no days if and only if it was changed after
/// now; for any age it is young as long as it was for one day less, and a day
/// longer.
pub proof fn age_is_counted_in_days(modified: Moment, now: Moment, later: Moment, days: nat)
    requires
        later.nanos == now.nanos,
        later.secs == now.secs + 24 * 60 * 60,
    ensures
        recent(modified, now, 0) <==> modified.total() > now.total(),
        recent(modified, later, days + 1) <==> recent(modified, now, days),
        days_fit(days) <==> days * 24 * 60 * 60 <= 18_446_744_073_709_551_615,
{
    assert((days + 1) * 86400 == days * 86400 + 86400);
    assert(days * 24 * 60 * 60 == days * 86400);
}

/// An entry of an archive is unpacked if and only if it stays in the folder, is
/// no directory, and either nothing is in its way or the policy does not leave
/// what is there: it does if it is to skip, or to keep the newest and the entry
/// is not newer.
pub proof fn entries_are_unpacked(
    enclosed: bool,
    name: Seq<char>,
    taken: bool,
    policy: ConflictPolicy,
    entry: Moment,
    there: Moment,
)
    ensures
        ({
            let action = entry_choice(enclosed, name, taken, policy, Some((entry, there)));
            let is_dir = name.len() > 0 && name.last() == '/';
            let stays = taken && (policy == ConflictPolicy::Skip || policy
                == ConflictPolicy::Newest && entry.total() <= there.total());
            &&& action == EntryAction::Extract <==> enclosed && !is_dir && !stays
            &&& action == EntryAction::MakeDir <==> enclosed && is_dir
            &&& action == EntryAction::Skip <==> !enclosed || !is_dir && stays
        }),
        !taken || policy != ConflictPolicy::Newest ==> entry_choice(
            enclosed,
            name,
            taken,
            policy,
            None,
        ) == entry_choice(enclosed, name, taken, policy, Some((entry, there))),
{
}

/// A line with an arrow names what is said, the one path, the arrow and the
/// other path, in that order.
pub proof fn arrow_leads_from_one_to_the_other(what: Seq<char>, from: Seq<char>, to: Seq<char>)
    ensures
        arrow(what, from, to) == what + from + seq![' ', '-', '>', ' '] + to,
{
    reveal_strlit(" -> ");
    assert(" -> "@ =~= seq![' ', '-', '>', ' ']);
}

/// A file is moved if and only if it is not left and the task is not rehearsed;
/// what is in its way is removed before that if and only if it is to be
/// replaced.
pub proof fn moved_unless_left(plan: MovePlan)
    ensures
        moving(plan).len() > 0 <==> plan != MovePlan::Leave,
        plan != MovePlan::Leave ==> moving(plan).last() == Step::Move,
        plan == MovePlan::Replace <==> moving(plan).len() == 2,
        plan == MovePlan::Replace ==> moving(plan)[0] == Step::RemoveDest,
        moving(plan).len() <= 2,
{
}

/// A file that a rule fits and that is not left is moved into its folder: the
/// folder is made first, what is in the way is removed only to be replaced, the
/// file is moved, and then both records say so, the history with both paths.
/// Nothing else is done.
pub proof fn sorted_files_are_moved(path: Seq<char>, dest: Seq<char>, plan: MovePlan)
    ensures
        ({
            let steps = sort_plan(path, dest, plan, false);
            let n = steps.len() as int;
            &&& plan == MovePlan::Leave <==> n == 0
            &&& plan == MovePlan::Move <==> n == 4
            &&& plan == MovePlan::Replace <==> n == 5
            &&& n > 0 ==> steps[0] == Step::MakeFolder && steps[n - 3] == Step::Move && steps[n - 2]
                == Step::RecordUndo && steps[n - 1] == Step::RecordHistory(
                "moved "@ + path + " -> "@ + dest,
            )
            &&& n == 5 ==> steps[1] == Step::RemoveDest
        }),
        forall|p: MovePlan| #[trigger]
            sort_plan(path, dest, p, true) == seq![
                Step::Say("would move "@ + path + " -> "@ + dest),
            ],
{
    let steps = sort_plan(path, dest, plan, false);
    assert forall|p: MovePlan| #[trigger] sort_plan(path, dest, p, true) == seq![
        Step::Say("would move "@ + path + " -> "@ + dest),
    ] by {
        assert(sort_plan(path, dest, p, true) =~= seq![
            Step::Say("would move "@ + path + " -> "@ + dest),
        ]);
    }
}

/// What is done about something in a folder that is cleaned, when it is not
/// rehearsed: what is kept stays untouched; an empty directory is removed; a
/// file that is sent away is deleted here afterwards; one that is deleted is
/// deleted and no more; one that is moved and not left is moved with the folder
/// made before it and a record behind it.
pub proof fn cleaning_does_what_was_chosen(
    plan: MovePlan,
    entry: Seq<char>,
    dest: Seq<char>,
    remote: Seq<char>,
)
    ensures
        clean_plan(CleanAction::Keep, plan, false, entry, dest, remote).len() == 0,
        clean_plan(CleanAction::DropDir, plan, false, entry, dest, remote) == seq![
            Step::RemoveEmptyDir,
        ],
        ({
            let steps = clean_plan(CleanAction::SendAway, plan, false, entry, dest, remote);
            steps.len() == 2 && steps[0] == Step::Send && steps[1] == Step::Delete
        }),
        clean_plan(CleanAction::Delete, plan, false, entry, dest, remote) == seq![Step::Delete],
        ({
            let steps = clean_plan(CleanAction::MoveHere, plan, false, entry, dest, remote);
            let n = steps.len() as int;
            &&& plan == MovePlan::Leave <==> n == 0
            &&& plan == MovePlan::Move <==> n == 3
            &&& plan == MovePlan::Replace <==> n == 4
            &&& n > 0 ==> steps[0] == Step::MakeParent && steps[n - 2] == Step::Move && steps[n - 1]
                == Step::RecordUndo
            &&& n == 4 ==> steps[1] == Step::RemoveDest
        }),
{
}

/// A rehearsal of cleaning says one line about all that would not be kept: what
/// would be done, to which entry, and where it would go.
pub proof fn rehearsed_cleaning_tells_what_it_would_do(
    plan: MovePlan,
    entry: Seq<char>,
    dest: Seq<char>,
    remote: Seq<char>,
)
    ensures
        clean_plan(CleanAction::Keep, plan, true, entry, dest, remote).len() == 0,
        clean_plan(CleanAction::DropDir, plan, true, entry, dest, remote) == seq![
            Step::Say("would remove empty dir "@ + entry),
        ],
        clean_plan(CleanAction::SendAway, plan, true, entry, dest, remote) == seq![
            Step::Say("would move "@ + entry + " -> "@ + (remote + ":"@ + dest)),
        ],
        clean_plan(CleanAction::MoveHere, plan, true, entry, dest, remote) == seq![
            Step::Say("would move "@ + entry + " -> "@ + dest),
        ],
        clean_plan(CleanAction::Delete, plan, true, entry, dest, remote) == seq![
            Step::Say("would delete "@ + entry),
        ],
{
}

/// A mirror that is run once stays here if and only if its task names no
/// machine; otherwise it goes to the machine that is named, by `rsync` if and
/// only if that was asked for, through the port that is given, or 22, and to the
/// destination that is given.
pub proof fn mirror_once_goes_where_it_is_told(
    dest: Seq<char>,
    remote: Option<Seq<char>>,
    port: Option<u16>,
    use_rsync: bool,
    once: MirrorOnce,
)
    requires
        is_mirror_once(dest, remote, port, use_rsync, once),
    ensures
        !(once is Say),
        once is Here <==> remote is None,
        once is ByRsync <==> remote is Some && use_rsync,
        once is ByScp <==> remote is Some && !use_rsync,
        once matches MirrorOnce::ByRsync { dest: d, remote: m, port: p } ==> Some(m@) == remote
            && (port matches Some(given) ==> p == given) && (port is None ==> p == 22) && d@
            == normalized(dest),
        once matches MirrorOnce::ByScp { dest: d, remote: m, port: p } ==> Some(m@) == remote
            && (port matches Some(given) ==> p == given) && (port is None ==> p == 22) && d@
            == normalized(dest),
{
}

} // verus!
