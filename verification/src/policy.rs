//! What to do when a file is about to be written where another one stands.

use vstd::prelude::*;

use crate::text::lowered;
use crate::text::{same_text, to_lower};

verus! {

/// How a conflict between two files is settled.
#[derive(Clone, Copy, Debug, PartialEq, Eq, Structural)]
pub enum ConflictPolicy {
    /// The file that is there stays.
    Skip,
    /// The file that is there is replaced.
    Overwrite,
    /// The new file gets a name that is free.
    Rename,
    /// The file that was modified last stays.
    Newest,
}

/// A conflict policy as it is named on the command line.
#[derive(Clone, Copy, Debug, PartialEq, Eq, Structural)]
pub enum ConflictArg {
    Skip,
    Overwrite,
    Rename,
    Newest,
}

/// The policy that a name stands for, in upper or lower case.
pub open spec fn conflict_named(name: Seq<char>) -> Option<ConflictArg> {
    let name = lowered(name);
    if name == "skip"@ {
        Some(ConflictArg::Skip)
    } else if name == "overwrite"@ {
        Some(ConflictArg::Overwrite)
    } else if name == "rename"@ {
        Some(ConflictArg::Rename)
    } else if name == "newest"@ {
        Some(ConflictArg::Newest)
    } else {
        None
    }
}

/// The name of a policy.
pub open spec fn conflict_name(policy: ConflictPolicy) -> Seq<char> {
    match policy {
        ConflictPolicy::Skip => "skip"@,
        ConflictPolicy::Overwrite => "overwrite"@,
        ConflictPolicy::Rename => "rename"@,
        ConflictPolicy::Newest => "newest"@,
    }
}

/// The name of a policy as it stands in reports.
pub open spec fn conflict_label(policy: ConflictPolicy) -> Seq<char> {
    match policy {
        ConflictPolicy::Skip => "Skip"@,
        ConflictPolicy::Overwrite => "Overwrite"@,
        ConflictPolicy::Rename => "Rename"@,
        ConflictPolicy::Newest => "Newest"@,
    }
}

/// The policy that an argument asks for.
pub open spec fn policy_of(arg: ConflictArg) -> ConflictPolicy {
    match arg {
        ConflictArg::Skip => ConflictPolicy::Skip,
        ConflictArg::Overwrite => ConflictPolicy::Overwrite,
        ConflictArg::Rename => ConflictPolicy::Rename,
        ConflictArg::Newest => ConflictPolicy::Newest,
    }
}

impl ConflictArg {
    /// Reads the name of a policy, in upper or lower case.
    pub fn from_str(value: &str) -> (r: Result<ConflictArg, String>)
        ensures
            match conflict_named(value@) {
                Some(arg) => r == Ok::<ConflictArg, String>(arg),
                None => r is Err && r->Err_0@ == "expected skip, overwrite, rename, or newest"@,
            },
    {
        let name = to_lower(value);
        let name = name.as_str();
        if same_text(name, "skip") {
            Ok(ConflictArg::Skip)
        } else if same_text(name, "overwrite") {
            Ok(ConflictArg::Overwrite)
        } else if same_text(name, "rename") {
            Ok(ConflictArg::Rename)
        } else if same_text(name, "newest") {
            Ok(ConflictArg::Newest)
        } else {
            Err("expected skip, overwrite, rename, or newest".to_owned())
        }
    }
}

impl From<ConflictArg> for ConflictPolicy {
    fn from(value: ConflictArg) -> (r: ConflictPolicy) {
        match value {
            ConflictArg::Skip => ConflictPolicy::Skip,
            ConflictArg::Overwrite => ConflictPolicy::Overwrite,
            ConflictArg::Rename => ConflictPolicy::Rename,
            ConflictArg::Newest => ConflictPolicy::Newest,
        }
    }
}

impl vstd::std_specs::convert::FromSpecImpl<ConflictArg> for ConflictPolicy {
    open spec fn obeys_from_spec() -> bool {
        true
    }

    open spec fn from_spec(value: ConflictArg) -> ConflictPolicy {
        policy_of(value)
    }
}

/// The policy of a task that names none.
pub fn default_conflict_policy() -> (r: ConflictPolicy)
    ensures
        r == ConflictPolicy::Rename,
{
    ConflictPolicy::Rename
}

/// The name of a policy, as the command line takes it.
pub fn conflict_arg(policy: ConflictPolicy) -> (r: &'static str)
    ensures
        r@ == conflict_name(policy),
{
    match policy {
        ConflictPolicy::Skip => "skip",
        ConflictPolicy::Overwrite => "overwrite",
        ConflictPolicy::Rename => "rename",
        ConflictPolicy::Newest => "newest",
    }
}

/// The name of a policy as it stands in reports.
pub fn conflict_report(policy: ConflictPolicy) -> (r: &'static str)
    ensures
        r@ == conflict_label(policy),
{
    match policy {
        ConflictPolicy::Skip => "Skip",
        ConflictPolicy::Overwrite => "Overwrite",
        ConflictPolicy::Rename => "Rename",
        ConflictPolicy::Newest => "Newest",
    }
}

/// The four names are different.
pub proof fn lemma_names_differ()
    ensures
        "skip"@ != "overwrite"@,
        "skip"@ != "rename"@,
        "skip"@ != "newest"@,
        "overwrite"@ != "rename"@,
        "overwrite"@ != "newest"@,
        "rename"@ != "newest"@,
{
    reveal_strlit("skip");
    reveal_strlit("overwrite");
    reveal_strlit("rename");
    reveal_strlit("newest");
    assert("skip"@[0] == 's');
    assert("overwrite"@[0] == 'o');
    assert("rename"@[0] == 'r');
    assert("newest"@[0] == 'n');
}

/// Reading the name of a policy gives that policy back.
pub proof fn conflict_name_reads_back(policy: ConflictPolicy)
    ensures
        conflict_named(conflict_name(policy)) is Some,
        policy_of(conflict_named(conflict_name(policy))->0) == policy,
{
    lemma_names_differ();
    reveal_strlit("skip");
    reveal_strlit("overwrite");
    reveal_strlit("rename");
    reveal_strlit("newest");
    assert(lowered(conflict_name(policy)) =~= conflict_name(policy));
}

/// A policy is known by its name whatever the case of its letters.
pub proof fn conflict_name_ignores_case(name: Seq<char>)
    ensures
        conflict_named(lowered(name)) == conflict_named(name),
{
    assert(lowered(lowered(name)) =~= lowered(name));
}

} // verus!
