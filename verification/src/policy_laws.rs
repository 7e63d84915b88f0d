//! Laws of the policies, and of how conflicts are settled by them.

use vstd::prelude::*;
use vstd::string::*;

use crate::conflict::{LAST_NUMBER, Moment, MovePlan, can_answer, is_first_free, is_newer};
use crate::conflict::{move_plan, no_name_left, numbered};
use crate::number::decimal;
use crate::policy::{ConflictArg, ConflictPolicy, conflict_label, conflict_name, conflict_named};
use crate::policy::{lemma_names_differ, policy_of};
use crate::text::lowered;

verus! {

/// Each of the four names, in letters of either case, asks for the policy that
/// it names, and no other text asks for any.
pub proof fn names_ask_for_their_policies(name: Seq<char>)
    ensures
        ({
            let asked = match conflict_named(name) {
                Some(arg) => Some(policy_of(arg)),
                None => None,
            };
            &&& asked == Some(ConflictPolicy::Skip) <==> lowered(name) == "skip"@
            &&& asked == Some(ConflictPolicy::Overwrite) <==> lowered(name) == "overwrite"@
            &&& asked == Some(ConflictPolicy::Rename) <==> lowered(name) == "rename"@
            &&& asked == Some(ConflictPolicy::Newest) <==> lowered(name) == "newest"@
        }),
{
    lemma_names_differ();
}

/// A policy is handed over by a name that is read as that policy, in lower
/// case, and shown by the same name with a capital.
pub proof fn policies_bear_their_names(policy: ConflictPolicy)
    ensures
        conflict_named(conflict_name(policy)) matches Some(arg) && policy_of(arg) == policy,
        conflict_named(conflict_label(policy)) matches Some(arg) && policy_of(arg) == policy,
        lowered(conflict_name(policy)) == conflict_name(policy),
        lowered(conflict_label(policy)) == conflict_name(policy),
        conflict_label(policy).len() > 0,
        'A' <= conflict_label(policy)[0] <= 'Z',
        conflict_label(policy).skip(1) == conflict_name(policy).skip(1),
{
    lemma_names_differ();
    reveal_strlit("skip");
    reveal_strlit("overwrite");
    reveal_strlit("rename");
    reveal_strlit("newest");
    reveal_strlit("Skip");
    reveal_strlit("Overwrite");
    reveal_strlit("Rename");
    reveal_strlit("Newest");
    assert(lowered(conflict_name(policy)) =~= conflict_name(policy));
    assert(lowered(conflict_label(policy)) =~= conflict_name(policy));
    assert(conflict_label(policy).skip(1) =~= conflict_name(policy).skip(1));
}

/// The four arguments ask for the four policies of the same names, so that no
/// two of them ask for the same.
pub proof fn arguments_ask_for_different_policies(a: ConflictArg, b: ConflictArg)
    ensures
        policy_of(a) == policy_of(b) <==> a == b,
        a == ConflictArg::Skip <==> policy_of(a) == ConflictPolicy::Skip,
        a == ConflictArg::Overwrite <==> policy_of(a) == ConflictPolicy::Overwrite,
        a == ConflictArg::Rename <==> policy_of(a) == ConflictPolicy::Rename,
        a == ConflictArg::Newest <==> policy_of(a) == ConflictPolicy::Newest,
{
}

/// What is at a destination gives way if and only if the policy is to
/// overwrite it, or to keep the newest and the file was changed later; the file
/// stays where it is if and only if something is there and the policy is to
/// skip it, or to keep the newest and the file was not changed later. In all
/// other cases it is moved and nothing gives way.
pub proof fn policies_settle_conflicts(
    dest_exists: bool,
    policy: ConflictPolicy,
    src: Moment,
    dest: Moment,
)
    requires
        src.nanos < 1_000_000_000,
        dest.nanos < 1_000_000_000,
    ensures
        ({
            let later = src.secs > dest.secs || src.secs == dest.secs && src.nanos > dest.nanos;
            let plan = move_plan(dest_exists, policy, Some((src, dest)));
            &&& plan == MovePlan::Replace <==> dest_exists && (policy == ConflictPolicy::Overwrite
                || policy == ConflictPolicy::Newest && later)
            &&& plan == MovePlan::Leave <==> dest_exists && (policy == ConflictPolicy::Skip
                || policy == ConflictPolicy::Newest && !later)
            &&& is_newer(Some((src, dest))) <==> later
        }),
{
    if src.secs > dest.secs {
        assert(src.secs * 1_000_000_000 >= dest.secs * 1_000_000_000 + 1_000_000_000);
    } else if src.secs < dest.secs {
        assert(dest.secs * 1_000_000_000 >= src.secs * 1_000_000_000 + 1_000_000_000);
    }
}

/// When the files were changed matters only where the newest is to be kept and
/// something is at the destination.
pub proof fn times_matter_for_the_newest_only(
    dest_exists: bool,
    policy: ConflictPolicy,
    times: Option<(Moment, Moment)>,
    others: Option<(Moment, Moment)>,
)
    requires
        !dest_exists || policy != ConflictPolicy::Newest,
    ensures
        move_plan(dest_exists, policy, times) == move_plan(dest_exists, policy, others),
        move_plan(dest_exists, policy, times) == MovePlan::Leave <==> dest_exists && policy
            == ConflictPolicy::Skip,
        move_plan(dest_exists, policy, times) == MovePlan::Replace <==> dest_exists && policy
            == ConflictPolicy::Overwrite,
{
}

/// A moment is later the more seconds it has, or the more nanoseconds with the
/// same seconds; a second is as long as a thousand million nanoseconds.
pub proof fn moments_are_ordered(a: Moment, b: Moment)
    ensures
        a.secs == b.secs ==> (a.total() - b.total() == a.nanos - b.nanos),
        a.nanos == b.nanos ==> (a.total() - b.total() == (a.secs - b.secs) * 1_000_000_000),
{
}

/// A numbered name begins with the stem and ends with a dot and the extension,
/// if there is one; between them stand a blank and the number in brackets.
pub proof fn numbered_names_show_their_parts(stem: Seq<char>, ext: Seq<char>, number: nat)
    ensures
        numbered(Some(stem), Some(ext), number) == stem + seq![' ', '('] + decimal(number)
            + seq![')', '.'] + ext,
        numbered(Some(stem), None, number) == stem + seq![' ', '('] + decimal(number) + seq![')'],
        numbered(None, Some(ext), number) == numbered(Some("file"@), Some(ext), number),
        numbered(None, None, number) == numbered(Some("file"@), None, number),
{
    reveal_strlit(" (");
    reveal_strlit(")");
    reveal_strlit(".");
    assert(" ("@ =~= seq![' ', '(']);
    assert(numbered(Some(stem), Some(ext), number) =~= stem + seq![' ', '('] + decimal(number)
        + seq![')', '.'] + ext);
    assert(numbered(Some(stem), None, number) =~= stem + seq![' ', '('] + decimal(number)
        + seq![')']);
}

/// The numbers of the names that are tried run from 1 to 9999, and the one that
/// is taken is the first for which the name is free: if all names below it are
/// taken and it is free, it is the one.
pub proof fn first_free_name_is_found<F: Fn(&str) -> bool>(
    is_taken: F,
    stem: Option<Seq<char>>,
    ext: Option<Seq<char>>,
    k: nat,
)
    ensures
        is_first_free(is_taken, stem, ext, k) <==> {
            &&& 1 <= k
            &&& k <= 9999
            &&& can_answer(is_taken, numbered(stem, ext, k), false)
            &&& forall|i: nat|
                1 <= i < k ==> can_answer(is_taken, #[trigger] numbered(stem, ext, i), true)
        },
        LAST_NUMBER == 9999,
{
}

/// The message about a path without a free name ends with the path.
pub proof fn message_names_the_path(path: Seq<char>)
    ensures
        path.is_suffix_of(no_name_left(path)),
        no_name_left(path).len() > path.len(),
{
    reveal_strlit("could not find available duplicate name for ");
    let m = no_name_left(path);
    assert("could not find available duplicate name for "@.len() == 44);
    assert(m.subrange(m.len() - path.len(), m.len() as int) =~= path);
}

} // verus!
