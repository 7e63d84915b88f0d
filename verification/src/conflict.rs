//! What is done where a file is to go to a path that is taken.

use vstd::prelude::*;
use vstd::string::*;

use crate::number::decimal;
use crate::number::{decimal_is_injective, to_decimal};
use crate::policy::ConflictPolicy;
use crate::text::opt_str;

verus! {

/// The number of the last name that is tried.
pub const LAST_NUMBER: u32 = 9999;

/// A file name with a number in it, made from the stem and the extension of
/// another.
pub open spec fn numbered(stem: Option<Seq<char>>, ext: Option<Seq<char>>, number: nat) -> Seq<char> {
    (match stem {
        Some(stem) => stem,
        None => "file"@,
    }) + " ("@ + decimal(number) + ")"@ + (match ext {
        Some(ext) => "."@ + ext,
        None => seq![],
    })
}

/// A file name with a number in it, made from the stem and the extension of
/// another.
pub fn numbered_name(stem: Option<&str>, ext: Option<&str>, number: u32) -> (r: String)
    ensures
        r@ == numbered(opt_str(stem), opt_str(ext), number as nat),
{
    let mut out = match stem {
        Some(stem) => stem.to_owned(),
        None => "file".to_owned(),
    };
    out.append(" (");
    out.append(to_decimal(number as u128).as_str());
    out.append(")");
    match ext {
        Some(ext) => {
            let mut tail = ".".to_owned();
            tail.append(ext);
            out.append(tail.as_str());
        },
        None => {
            assert(out@ + seq![] =~= out@);
        },
    }
    out
}

/// Whether the answer to the question whether `name` is taken can be `taken`.
pub open spec fn can_answer<F: Fn(&str) -> bool>(is_taken: F, name: Seq<char>, taken: bool) -> bool {
    exists|n: &str| n@ == name && #[trigger] is_taken.ensures((n,), taken)
}

/// Whether the name with number `k` is said to be free, and those with the
/// numbers below it to be taken.
pub open spec fn is_first_free<F: Fn(&str) -> bool>(
    is_taken: F,
    stem: Option<Seq<char>>,
    ext: Option<Seq<char>>,
    k: nat,
) -> bool {
    &&& 1 <= k <= LAST_NUMBER
    &&& can_answer(is_taken, numbered(stem, ext, k), false)
    &&& forall|i: nat|
        1 <= i < k ==> can_answer(is_taken, #[trigger] numbered(stem, ext, i), true)
}

/// The message about a path for which no name is left.
pub open spec fn no_name_left(path: Seq<char>) -> Seq<char> {
    "could not find available duplicate name for "@ + path
}

/// Finds the path that a file is to go to, in place of `path`: that path itself,
/// for which the answer is `None`, or one with another file name beside it.
/// Another name is taken only if there is something at the path and the policy
/// is to rename; it is the first that `is_taken` says is free. `stem` and `ext`
/// are those of the path.
pub fn resolve_conflict<F: Fn(&str) -> bool>(
    path: &str,
    taken: bool,
    policy: ConflictPolicy,
    stem: Option<&str>,
    ext: Option<&str>,
    is_taken: F,
) -> (r: Result<Option<String>, String>)
    requires
        forall|n: &str| #[trigger] is_taken.requires((n,)),
    ensures
        if !taken || policy != ConflictPolicy::Rename {
            r == Ok::<Option<String>, String>(None)
        } else {
            match r {
                Ok(Some(name)) => exists|k: nat| #[trigger]
                    is_first_free(is_taken, opt_str(stem), opt_str(ext), k) && name@ == numbered(
                        opt_str(stem),
                        opt_str(ext),
                        k,
                    ),
                Ok(None) => false,
                Err(e) => {
                    &&& e@ == no_name_left(path@)
                    &&& forall|i: nat|
                        1 <= i <= LAST_NUMBER ==> can_answer(
                            is_taken,
                            #[trigger] numbered(opt_str(stem), opt_str(ext), i),
                            true,
                        )
                },
            }
        },
{
    if !taken {
        return Ok(None);
    }
    match policy {
        ConflictPolicy::Skip | ConflictPolicy::Overwrite | ConflictPolicy::Newest => Ok(None),
        ConflictPolicy::Rename => {
            let mut k: u32 = 1;
            while k <= LAST_NUMBER
                invariant
                    1 <= k <= LAST_NUMBER + 1,
                    forall|n: &str| #[trigger] is_taken.requires((n,)),
                    taken && policy == ConflictPolicy::Rename,
                    forall|i: nat|
                        1 <= i < k ==> can_answer(
                            is_taken,
                            #[trigger] numbered(opt_str(stem), opt_str(ext), i),
                            true,
                        ),
                decreases LAST_NUMBER + 1 - k,
            {
                let name = numbered_name(stem, ext, k);
                if !is_taken(name.as_str()) {
                    assert(is_first_free(is_taken, opt_str(stem), opt_str(ext), k as nat));
                    return Ok(Some(name));
                }
                k = k + 1;
            }
            let mut message = "could not find available duplicate name for ".to_owned();
            message.append(path);
            Err(message)
        },
    }
}

/// A point in time, as seconds and nanoseconds since the epoch.
#[derive(Clone, Copy, Debug)]
pub struct Moment {
    pub secs: i64,
    pub nanos: u32,
}

impl Moment {
    /// The nanoseconds since the epoch.
    pub open spec fn total(self) -> int {
        self.secs * 1_000_000_000 + self.nanos
    }

    /// The nanoseconds since the epoch.
    pub fn as_nanos(&self) -> (r: i128)
        ensures
            r == self.total(),
            i64::MIN * 1_000_000_000 <= r <= i64::MAX * 1_000_000_000 + u32::MAX,
    {
        self.secs as i128 * 1_000_000_000 + self.nanos as i128
    }
}

/// How a file gets to its destination.
#[derive(Clone, Copy, Debug, PartialEq, Eq, Structural)]
pub enum MovePlan {
    /// It stays where it is.
    Leave,
    /// It is moved.
    Move,
    /// What is at the destination is removed, then the file is moved.
    Replace,
}

/// Whether a file was changed later than what is at its destination.
pub open spec fn is_newer(times: Option<(Moment, Moment)>) -> bool {
    times matches Some((src, dest)) && src.total() > dest.total()
}

/// How a file gets to its destination. `times` are the times at which the file
/// and what is at its destination were changed.
pub open spec fn move_plan(
    dest_exists: bool,
    policy: ConflictPolicy,
    times: Option<(Moment, Moment)>,
) -> MovePlan {
    if !dest_exists {
        MovePlan::Move
    } else {
        match policy {
            ConflictPolicy::Skip => MovePlan::Leave,
            ConflictPolicy::Overwrite => MovePlan::Replace,
            ConflictPolicy::Rename => MovePlan::Move,
            ConflictPolicy::Newest => if is_newer(times) {
                MovePlan::Replace
            } else {
                MovePlan::Leave
            },
        }
    }
}

/// Whether it has to be known when the two files were changed.
pub fn needs_times(dest_exists: bool, policy: ConflictPolicy) -> (r: bool)
    ensures
        r == (dest_exists && policy == ConflictPolicy::Newest),
{
    dest_exists && matches!(policy, ConflictPolicy::Newest)
}

/// Decides how a file gets to its destination. `times` are the times at which
/// the file and what is at its destination were changed; they are looked at
/// only where the newest is to be kept.
pub fn move_with_conflict(
    dest_exists: bool,
    policy: ConflictPolicy,
    times: Option<(Moment, Moment)>,
) -> (r: MovePlan)
    requires
        dest_exists && policy == ConflictPolicy::Newest ==> times is Some,
    ensures
        r == move_plan(dest_exists, policy, times),
{
    if !dest_exists {
        return MovePlan::Move;
    }
    match policy {
        ConflictPolicy::Skip => MovePlan::Leave,
        ConflictPolicy::Overwrite => MovePlan::Replace,
        ConflictPolicy::Rename => MovePlan::Move,
        ConflictPolicy::Newest => match times {
            Some((src, dest)) => if src.as_nanos() <= dest.as_nanos() {
                MovePlan::Leave
            } else {
                MovePlan::Replace
            },
            None => MovePlan::Leave,
        },
    }
}

/// A file that is at the destination is removed only if the policy is to
/// overwrite, or to keep the newest and it is the older one; a file stays where
/// it is only if its destination is taken.
pub proof fn only_allowed_files_are_replaced(
    dest_exists: bool,
    policy: ConflictPolicy,
    times: Option<(Moment, Moment)>,
)
    ensures
        move_plan(dest_exists, policy, times) == MovePlan::Replace ==> dest_exists && (policy
            == ConflictPolicy::Overwrite || policy == ConflictPolicy::Newest && is_newer(times)),
        move_plan(dest_exists, policy, times) == MovePlan::Leave ==> dest_exists && (policy
            == ConflictPolicy::Skip || policy == ConflictPolicy::Newest),
{
}

/// Names with different numbers differ.
pub proof fn numbered_names_differ(
    stem: Option<Seq<char>>,
    ext: Option<Seq<char>>,
    a: nat,
    b: nat,
)
    requires
        numbered(stem, ext, a) == numbered(stem, ext, b),
    ensures
        a == b,
{
    let head = (match stem {
        Some(stem) => stem,
        None => "file"@,
    }) + " ("@;
    let tail = match ext {
        Some(ext) => "."@ + ext,
        None => seq![],
    };
    let x = numbered(stem, ext, a);
    let y = numbered(stem, ext, b);
    let n = head.len();
    let close = ")"@;
    assert(x.len() == n + decimal(a).len() + close.len() + tail.len());
    assert(y.len() == n + decimal(b).len() + close.len() + tail.len());
    assert(decimal(a) =~= x.subrange(n as int, (n + decimal(a).len()) as int));
    assert(decimal(b) =~= y.subrange(n as int, (n + decimal(b).len()) as int));
    decimal_is_injective(a, b);
}

/// Where it is settled which names are taken, a file that has to be renamed
/// gets the first free name, or none if there is none.
pub proof fn first_free_name_is_unique<F: Fn(&str) -> bool>(
    is_taken: F,
    settled: spec_fn(Seq<char>) -> bool,
    stem: Option<Seq<char>>,
    ext: Option<Seq<char>>,
    a: nat,
    b: nat,
)
    requires
        forall|n: &str, t: bool| #[trigger] is_taken.ensures((n,), t) ==> t == settled(n@),
        is_first_free(is_taken, stem, ext, a),
        is_first_free(is_taken, stem, ext, b),
    ensures
        a == b,
        !settled(numbered(stem, ext, a)),
        forall|i: nat| 1 <= i < a ==> settled(#[trigger] numbered(stem, ext, i)),
{
    if a < b {
        assert(can_answer(is_taken, numbered(stem, ext, a), true));
    } else if b < a {
        assert(can_answer(is_taken, numbered(stem, ext, b), true));
    }
}

} // verus!
