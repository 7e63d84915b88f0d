//! Laws of what the daemons do to files.

use vstd::prelude::*;
use vstd::string::*;

use crate::conflict::{Moment, MovePlan};
use crate::conflict::{is_newer, move_plan};
use crate::number::decimal;
use crate::remote::ssh_option;
use crate::remote_laws::{lemma_chain, lemma_read_transfer};
use crate::shell::{between, quoting, read_on, shell_words, single_quoted};
use crate::shell::{lemma_open_quote, lemma_read_parts, lemma_read_text, lemma_read_word};
use crate::policy::ConflictPolicy;
use crate::watcher::{CleanAction, Cleaning, EntryAction, Found, Step};
use crate::watcher::{clean_choice, clean_plan, entry_choice, move_line, move_words, recent};
use crate::watcher::sort_plan;

verus! {

/// A rehearsal only speaks: it touches no file and records nothing.
pub proof fn rehearsal_only_speaks(
    action: CleanAction,
    plan: MovePlan,
    path: Seq<char>,
    dest: Seq<char>,
    remote: Seq<char>,
)
    ensures
        forall|i: int|
            0 <= i < sort_plan(path, dest, plan, true).len() ==> (#[trigger] sort_plan(
                path,
                dest,
                plan,
                true,
            )[i]) is Say,
        forall|i: int|
            0 <= i < clean_plan(action, plan, true, path, dest, remote).len()
                ==> (#[trigger] clean_plan(action, plan, true, path, dest, remote)[i]) is Say,
{
}

/// Cleaning leaves a file alone that is too young, and a directory that has
/// something in it.
pub proof fn cleaning_spares(found: Found, how: Cleaning)
    requires
        if found.is_dir {
            !found.is_empty
        } else {
            found.is_recent
        },
    ensures
        clean_choice(found, how) == Some(CleanAction::Keep),
        forall|
            plan: MovePlan,
            dry_run: bool,
            entry: Seq<char>,
            dest: Seq<char>,
            remote: Seq<char>,
        |
            #![trigger clean_plan(CleanAction::Keep, plan, dry_run, entry, dest, remote)]
            clean_plan(CleanAction::Keep, plan, dry_run, entry, dest, remote) == Seq::<
                Step,
            >::empty(),
{
}

/// A file that is young for one age is young for every greater one.
pub proof fn younger_for_greater_age(modified: Moment, now: Moment, days: nat, more: nat)
    requires
        days <= more,
        recent(modified, now, days),
    ensures
        recent(modified, now, more),
{
}

/// Whether every move among the steps is followed by a record with which it can
/// be taken back, and every such record follows a move.
pub open spec fn records_its_moves(steps: Seq<Step>) -> bool {
    &&& forall|i: int|
        0 <= i < steps.len() && #[trigger] steps[i] == Step::Move ==> i + 1 < steps.len()
            && steps[i + 1] == Step::RecordUndo
    &&& forall|i: int|
        0 <= i < steps.len() && #[trigger] steps[i] == Step::RecordUndo ==> i > 0 && steps[i - 1]
            == Step::Move
}

/// Every move is followed by a record with which it can be taken back, and
/// nothing else is recorded so.
pub proof fn moves_can_be_taken_back(
    action: CleanAction,
    plan: MovePlan,
    dry_run: bool,
    path: Seq<char>,
    dest: Seq<char>,
    remote: Seq<char>,
)
    ensures
        records_its_moves(sort_plan(path, dest, plan, dry_run)),
        records_its_moves(clean_plan(action, plan, dry_run, path, dest, remote)),
{
}

/// Where the destination is taken and the policy is to skip, or to keep the
/// newest and the file is not newer, nothing is done and nothing recorded; nor
/// is an entry of an archive unpacked onto what is there.
pub proof fn left_files_leave_no_trace(
    policy: ConflictPolicy,
    times: Option<(Moment, Moment)>,
    path: Seq<char>,
    dest: Seq<char>,
    remote: Seq<char>,
    name: Seq<char>,
)
    requires
        policy == ConflictPolicy::Skip || policy == ConflictPolicy::Newest && !is_newer(times),
    ensures
        sort_plan(path, dest, move_plan(true, policy, times), false) == Seq::<Step>::empty(),
        clean_plan(
            CleanAction::MoveHere,
            move_plan(true, policy, times),
            false,
            path,
            dest,
            remote,
        ) == Seq::<Step>::empty(),
        entry_choice(true, name, true, policy, times) != EntryAction::Extract,
{
}

/// What is at a destination is removed only where the policy allows it, and a
/// file then takes its place.
pub proof fn removed_files_are_replaced(
    action: CleanAction,
    plan: MovePlan,
    dry_run: bool,
    path: Seq<char>,
    dest: Seq<char>,
    remote: Seq<char>,
    i: int,
)
    ensures
        ({
            let steps = sort_plan(path, dest, plan, dry_run);
            0 <= i < steps.len() && steps[i] == Step::RemoveDest ==> plan == MovePlan::Replace
                && steps[i + 1] == Step::Move
        }),
        ({
            let steps = clean_plan(action, plan, dry_run, path, dest, remote);
            0 <= i < steps.len() && steps[i] == Step::RemoveDest ==> plan == MovePlan::Replace
                && steps[i + 1] == Step::Move
        }),
{
}

/// Cleaning deletes a file only after it was sent away, or if it is to go
/// nowhere.
pub proof fn files_are_not_lost(
    found: Found,
    how: Cleaning,
    plan: MovePlan,
    entry: Seq<char>,
    dest: Seq<char>,
    remote: Seq<char>,
)
    requires
        clean_choice(found, how) is Some,
    ensures
        ({
            let steps = clean_plan(
                clean_choice(found, how)->0,
                plan,
                how.dry_run,
                entry,
                dest,
                remote,
            );
            forall|i: int|
                0 <= i < steps.len() && #[trigger] steps[i] == Step::Delete ==> {
                    &&& !found.is_dir && !found.is_recent && !how.dry_run
                    &&& how.has_move_to ==> how.has_remote && i == 1 && steps[0] == Step::Send
                    &&& !how.has_move_to ==> !how.has_remote
                }
        }),
{
}

/// The line that sends a file through a shell runs `rsync` with the same words
/// as the command that needs no shell, whatever characters the file, the
/// machine and the destination hold.
pub proof fn move_line_is_one_command(
    src: Seq<char>,
    remote: Seq<char>,
    dest: Seq<char>,
    port: nat,
)
    ensures
        shell_words(move_line(src, remote, dest, port)) == Some(
            move_words(src, remote, dest, port),
        ),
{
    reveal_strlit("rsync -az -e 'ssh -p ");
    reveal_strlit("rsync");
    reveal_strlit("-az");
    reveal_strlit("-e");
    reveal_strlit("ssh -p ");
    let head = "rsync -az -e 'ssh -p "@;
    let b = seq![' '];
    let w1 = "rsync"@ + b;
    let w2 = "-az"@ + b;
    let w3 = "-e"@ + b;
    let q = seq!['\''];
    assert(head =~= w1 + (w2 + (w3 + (q + "ssh -p "@))));
    let d0 = Seq::<Seq<char>>::empty();
    let d1 = seq!["rsync"@];
    let d2 = seq!["rsync"@, "-az"@];
    let d3 = seq!["rsync"@, "-az"@, "-e"@];
    assert(d0.push("rsync"@) =~= d1 && d1.push("-az"@) =~= d2 && d2.push("-e"@) =~= d3);
    lemma_read_word(d0, "rsync"@);
    lemma_read_word(d1, "-az"@);
    lemma_read_word(d2, "-e"@);
    lemma_open_quote(d3);
    assert(!"ssh -p "@.contains('\''));
    lemma_read_text(quoting(d3, seq![]), "ssh -p "@);
    assert(Seq::<char>::empty() + "ssh -p "@ =~= "ssh -p "@);
    lemma_read_parts(Some(between(d3)), q, "ssh -p "@);
    lemma_read_parts(Some(between(d2)), w3, q + "ssh -p "@);
    lemma_read_parts(Some(between(d1)), w2, w3 + (q + "ssh -p "@));
    lemma_read_parts(Some(between(d0)), w1, w2 + (w3 + (q + "ssh -p "@)));
    assert(read_on(Some(between(d0)), head) == Some(quoting(d3, "ssh -p "@)));

    let none = Seq::<char>::empty();
    assert(none + "' '"@ =~= "' '"@);
    assert(src + none =~= src);
    lemma_read_transfer(d3, port, src, none, remote, dest);
    let rest = decimal(port) + "' '"@ + single_quoted(src) + "' '"@ + single_quoted(remote) + ":"@
        + single_quoted(dest) + "/'"@;
    lemma_read_parts(Some(between(d0)), head, rest);
    lemma_chain(
        head,
        decimal(port),
        "' '"@,
        single_quoted(src),
        "' '"@,
        single_quoted(remote),
        ":"@,
        single_quoted(dest),
        "/'"@,
    );
    assert(d3.push(ssh_option(port)).push(src).push(remote + ":"@ + dest + "/"@) =~= move_words(
        src,
        remote,
        dest,
        port,
    ));
}

} // verus!
