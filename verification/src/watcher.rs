//! What the daemons do to files: which changes concern them, what is done about
//! a file, and the commands that copy folders.

use vstd::prelude::*;
use vstd::string::*;

use crate::clock::is_time;
use crate::clock::now;
use crate::conflict::{Moment, MovePlan};
use crate::conflict::move_plan;
use crate::conflict::move_with_conflict;
use crate::daemon::HistoryEvent;
use crate::duration::DAY;
use crate::number::decimal;
use crate::number::to_decimal;
use crate::paths::Platform;
use crate::policy::ConflictPolicy;
use crate::commands::port_or_default;
use crate::commands::port_to_use;
use crate::remote::{drive_path_to_wsl, normalize_remote_dest};
use crate::remote::strip_start;
use crate::remote::{drive_place, normalized, ssh_option, unsupported_path, without_prefix};
use crate::remote::ChangeKind;
use crate::shell::CommandLine;
use crate::shell::single_quoted;
use crate::shell::single_quote_for_shell;
use crate::text::{flagged, opt_str, replaced, texts};
use crate::text::{chars_of, is_text, push_flagged, push_text, push_two, replace_char, two_parts};

verus! {

/// Whether a file with this extension is an archive to be unpacked.
pub fn is_archive(extension: Option<&str>) -> (r: bool)
    ensures
        r == (opt_str(extension) == Some("zip"@)),
{
    is_text(extension, "zip")
}

/// Whether a change is one that an archive can have come by.
pub fn brings_files(kind: ChangeKind) -> (r: bool)
    ensures
        r == (kind == ChangeKind::Create || kind == ChangeKind::Modify),
{
    matches!(kind, ChangeKind::Create | ChangeKind::Modify)
}

/// What is done with an entry of an archive.
#[derive(Clone, Copy, Debug, PartialEq, Eq, Structural)]
pub enum EntryAction {
    /// It is passed over.
    Skip,
    /// It is a directory, which is made.
    MakeDir,
    /// It is a file, which is written.
    Extract,
}

/// What is done with the entry `name` of an archive. `enclosed` says whether
/// the entry has a path that stays under the folder it is unpacked to; one
/// that has none is passed over. `exists` says whether there is something at
/// that path, and `times` are those of the entry and of what is there; a file
/// is passed over wherever the policy would leave one in its place that was to
/// be moved there.
pub open spec fn entry_choice(
    enclosed: bool,
    name: Seq<char>,
    exists: bool,
    policy: ConflictPolicy,
    times: Option<(Moment, Moment)>,
) -> EntryAction {
    if !enclosed {
        EntryAction::Skip
    } else if name.len() > 0 && name.last() == '/' {
        EntryAction::MakeDir
    } else if move_plan(exists, policy, times) == MovePlan::Leave {
        EntryAction::Skip
    } else {
        EntryAction::Extract
    }
}

/// What is done with the entry `name` of an archive. The times of the entry and
/// of what is at its path are looked at only where the newest is to be kept.
pub fn entry_action(
    enclosed: bool,
    name: &str,
    exists: bool,
    policy: ConflictPolicy,
    times: Option<(Moment, Moment)>,
) -> (r: EntryAction)
    requires
        exists && policy == ConflictPolicy::Newest ==> times is Some,
    ensures
        r == entry_choice(enclosed, name@, exists, policy, times),
{
    if !enclosed {
        return EntryAction::Skip;
    }
    let chars = chars_of(name);
    let n: usize = chars.len();
    if n > 0 && chars[n - 1] == '/' {
        return EntryAction::MakeDir;
    }
    match move_with_conflict(exists, policy, times) {
        MovePlan::Leave => EntryAction::Skip,
        MovePlan::Move | MovePlan::Replace => EntryAction::Extract,
    }
}

/// The next thing that is done with an archive.
#[derive(Clone, Copy, Debug, PartialEq, Eq, Structural)]
pub enum ArchiveStep {
    /// The entry at this position is unpacked.
    Entry(usize),
    /// All entries are unpacked, and the archive is removed.
    Remove,
    /// All entries are unpacked, and the archive is kept.
    Keep,
}

/// What is done next with an archive of `count` entries, the first `done` of
/// which are unpacked: the entries are taken in order, and only behind the last
/// of them is the archive removed, if it is to be deleted.
pub fn unzip_and_handle(done: usize, count: usize, delete: bool) -> (r: ArchiveStep)
    ensures
        r == if done < count {
            ArchiveStep::Entry(done)
        } else if delete {
            ArchiveStep::Remove
        } else {
            ArchiveStep::Keep
        },
{
    if done < count {
        ArchiveStep::Entry(done)
    } else if delete {
        ArchiveStep::Remove
    } else {
        ArchiveStep::Keep
    }
}

/// Whether it has to be seen that a file stays the same before it is touched.
pub fn has_to_settle(stable_secs: u64, exists: bool) -> (r: bool)
    ensures
        r == (stable_secs != 0 && exists),
{
    stable_secs != 0 && exists
}

/// Whether a file still changes that had the size `last` at the last look.
/// `size` is its size now, if it is still there; if it does change, the look
/// after this one compares with `size`.
pub fn wait_until_stable(last: u64, size: Option<u64>) -> (r: Option<u64>)
    ensures
        r == match size {
            Some(current) => if current == last {
                None
            } else {
                Some(current)
            },
            None => None,
        },
{
    match size {
        Some(current) => if current == last {
            None
        } else {
            Some(current)
        },
        None => None,
    }
}

/// The words of the command that copies a folder here.
pub open spec fn sync_words(
    src: Seq<char>,
    dest: Seq<char>,
    conflict: ConflictPolicy,
    included: Seq<Seq<char>>,
    excluded: Seq<Seq<char>>,
) -> Seq<Seq<char>> {
    seq![
        "rsync"@,
        "-a"@,
        if conflict == ConflictPolicy::Skip {
            "--ignore-existing"@
        } else {
            "--delete"@
        },
    ] + flagged("--include"@, included) + flagged("--exclude"@, excluded) + seq![
        replaced(src, '\\', "/"@) + "/"@,
        replaced(dest, '\\', "/"@) + "/"@,
    ]
}

/// The command that copies a folder here. Files that are already there are left
/// alone if the policy is to skip them; otherwise what is not in the folder is
/// deleted from its copy.
pub fn sync_dir_with_rsync(
    src: &str,
    dest: &str,
    conflict: ConflictPolicy,
    included: &Vec<String>,
    excluded: &Vec<String>,
) -> (r: CommandLine)
    ensures
        r.words() == sync_words(src@, dest@, conflict, texts(included@), texts(excluded@)),
{
    let mut from = replace_char(src, '\\', "/");
    from.append("/");
    let mut to = replace_char(dest, '\\', "/");
    to.append("/");
    let mut args: Vec<String> = Vec::new();
    let mode = if matches!(conflict, ConflictPolicy::Skip) {
        "--ignore-existing"
    } else {
        "--delete"
    };
    push_two(&mut args, "-a", mode);
    push_flagged(&mut args, "--include", included);
    push_flagged(&mut args, "--exclude", excluded);
    push_two(&mut args, from.as_str(), to.as_str());
    let line = CommandLine { program: "rsync".to_owned(), args };
    assert(line.words() =~= sync_words(
        src@,
        dest@,
        conflict,
        texts(included@),
        texts(excluded@),
    ));
    line
}

/// The line for the shell of the Linux subsystem that sends one file.
pub open spec fn move_line(
    src: Seq<char>,
    remote: Seq<char>,
    dest: Seq<char>,
    port: nat,
) -> Seq<char> {
    "rsync -az -e 'ssh -p "@ + decimal(port) + "' '"@ + single_quoted(src) + "' '"@
        + single_quoted(remote) + ":"@ + single_quoted(dest) + "/'"@
}

/// The words of the command that sends one file.
pub open spec fn move_words(
    src: Seq<char>,
    remote: Seq<char>,
    dest: Seq<char>,
    port: nat,
) -> Seq<Seq<char>> {
    seq![
        "rsync"@,
        "-az"@,
        "-e"@,
        ssh_option(port),
        src,
        remote + ":"@ + dest + "/"@,
    ]
}

/// A path without the prefix that marks it as taken literally, with slashes for
/// backslashes.
pub open spec fn slashed_path(path: Seq<char>) -> Seq<char> {
    replaced(without_prefix(path, "\\\\?\\"@), '\\', "/"@)
}

/// The command that sends one file to another machine.
pub fn remote_move_with_rsync(
    platform: Platform,
    path: &str,
    remote_dest: &str,
    remote: &str,
    port: u16,
) -> (r: Result<CommandLine, String>)
    ensures
        match platform {
            Platform::Windows => match drive_place(slashed_path(path@)) {
                Some(place) => r is Ok && r->Ok_0.words() == seq![
                    "wsl"@,
                    "sh"@,
                    "-lc"@,
                    move_line(place, remote@, replaced(remote_dest@, '\\', "/"@), port as nat),
                ],
                None => r is Err && r->Err_0@ == unsupported_path(slashed_path(path@)),
            },
            Platform::Unix => r is Ok && r->Ok_0.words() == move_words(
                path@,
                remote@,
                remote_dest@,
                port as nat,
            ),
        },
{
    let mut args: Vec<String> = Vec::new();
    match platform {
        Platform::Windows => {
            let bare = strip_start(path, "\\\\?\\");
            let place = match drive_path_to_wsl(bare.as_str()) {
                Ok(place) => place,
                Err(e) => {
                    return Err(e);
                },
            };
            let dest = replace_char(remote_dest, '\\', "/");
            let mut line = "rsync -az -e 'ssh -p ".to_owned();
            line.append(to_decimal(port as u128).as_str());
            line.append("' '");
            line.append(single_quote_for_shell(place.as_str()).as_str());
            line.append("' '");
            line.append(single_quote_for_shell(remote).as_str());
            line.append(":");
            line.append(single_quote_for_shell(dest.as_str()).as_str());
            line.append("/'");
            push_two(&mut args, "sh", "-lc");
            push_text(&mut args, line.as_str());
            let command = CommandLine { program: "wsl".to_owned(), args };
            assert(command.words() =~= seq!["wsl"@, "sh"@, "-lc"@, line@]);
            Ok(command)
        },
        Platform::Unix => {
            let mut to = remote.to_owned();
            to.append(":");
            to.append(remote_dest);
            to.append("/");
            let mut reach = "ssh -p ".to_owned();
            reach.append(to_decimal(port as u128).as_str());
            push_two(&mut args, "-az", "-e");
            push_two(&mut args, reach.as_str(), path);
            push_text(&mut args, to.as_str());
            let command = CommandLine { program: "rsync".to_owned(), args };
            assert(command.words() =~= move_words(path@, remote@, remote_dest@, port as nat));
            Ok(command)
        },
    }
}

/// One thing that is done about a file and its destination.
#[derive(Clone, Debug)]
pub enum FileStep {
    /// A line is printed.
    Say(String),
    /// The directory is removed, if that can be done.
    RemoveEmptyDir,
    /// The folder that the file goes to is made.
    MakeFolder,
    /// The folder that the destination lies in is made.
    MakeParent,
    /// What is at the destination is removed.
    RemoveDest,
    /// The file is moved to its destination.
    Move,
    /// The file is sent to another machine.
    Send,
    /// The file is deleted.
    Delete,
    /// It is recorded that the move can be taken back.
    RecordUndo,
    /// A line is added to the history.
    RecordHistory(String),
}

/// One thing that is done about a file, with its text as a sequence.
pub enum Step {
    Say(Seq<char>),
    RemoveEmptyDir,
    MakeFolder,
    MakeParent,
    RemoveDest,
    Move,
    Send,
    Delete,
    RecordUndo,
    RecordHistory(Seq<char>),
}

impl View for FileStep {
    type V = Step;

    open spec fn view(&self) -> Step {
        match self {
            FileStep::Say(line) => Step::Say(line@),
            FileStep::RemoveEmptyDir => Step::RemoveEmptyDir,
            FileStep::MakeFolder => Step::MakeFolder,
            FileStep::MakeParent => Step::MakeParent,
            FileStep::RemoveDest => Step::RemoveDest,
            FileStep::Move => Step::Move,
            FileStep::Send => Step::Send,
            FileStep::Delete => Step::Delete,
            FileStep::RecordUndo => Step::RecordUndo,
            FileStep::RecordHistory(line) => Step::RecordHistory(line@),
        }
    }
}

/// The steps, with their texts as sequences.
pub open spec fn steps_of(steps: Seq<FileStep>) -> Seq<Step> {
    steps.map_values(|s: FileStep| s@)
}

/// The words `what`, then a path, then an arrow and where it leads.
pub open spec fn arrow(what: Seq<char>, from: Seq<char>, to: Seq<char>) -> Seq<char> {
    what + from + " -> "@ + to
}

fn arrow_text(what: &str, from: &str, to: &str) -> (r: String)
    ensures
        r@ == arrow(what@, from@, to@),
{
    let mut out = what.to_owned();
    out.append(from);
    out.append(" -> ");
    out.append(to);
    out
}

/// The steps by which a file gets to its destination, when it is not left where
/// it is.
pub open spec fn moving(plan: MovePlan) -> Seq<Step> {
    match plan {
        MovePlan::Leave => seq![],
        MovePlan::Move => seq![Step::Move],
        MovePlan::Replace => seq![Step::RemoveDest, Step::Move],
    }
}

fn push_step(steps: &mut Vec<FileStep>, step: FileStep)
    ensures
        steps_of(final(steps)@) == steps_of(old(steps)@).push(step@),
{
    steps.push(step);
    assert(steps_of(steps@) =~= steps_of(old(steps)@).push(step@));
}

fn push_moving(steps: &mut Vec<FileStep>, plan: MovePlan)
    ensures
        steps_of(final(steps)@) == steps_of(old(steps)@) + moving(plan),
{
    if matches!(plan, MovePlan::Replace) {
        steps.push(FileStep::RemoveDest);
    }
    if !matches!(plan, MovePlan::Leave) {
        steps.push(FileStep::Move);
    }
    assert(steps_of(steps@) =~= steps_of(old(steps)@) + moving(plan));
}

/// What is done about a file that a rule fits: it is moved as `plan` says, and
/// both records say so. Where it is left, nothing is done and nothing recorded.
pub open spec fn sort_plan(
    path: Seq<char>,
    dest: Seq<char>,
    plan: MovePlan,
    dry_run: bool,
) -> Seq<Step> {
    if dry_run {
        seq![Step::Say(arrow("would move "@, path, dest))]
    } else if plan == MovePlan::Leave {
        seq![]
    } else {
        seq![Step::MakeFolder] + moving(plan) + seq![
            Step::RecordUndo,
            Step::RecordHistory(arrow("moved "@, path, dest)),
        ]
    }
}

/// What is done about a file that a rule fits. `plan` is how it gets to its
/// destination; a rehearsal does not look at it.
pub fn sort_file(path: &str, dest: &str, plan: MovePlan, dry_run: bool) -> (r: Vec<FileStep>)
    ensures
        steps_of(r@) == sort_plan(path@, dest@, plan, dry_run),
{
    let mut out: Vec<FileStep> = Vec::new();
    if dry_run {
        out.push(FileStep::Say(arrow_text("would move ", path, dest)));
    } else if !matches!(plan, MovePlan::Leave) {
        push_step(&mut out, FileStep::MakeFolder);
        push_moving(&mut out, plan);
        push_step(&mut out, FileStep::RecordUndo);
        push_step(&mut out, FileStep::RecordHistory(arrow_text("moved ", path, dest)));
    }
    assert(steps_of(out@) =~= sort_plan(path@, dest@, plan, dry_run));
    out
}

/// Whether the seconds of so many days are a number of 64 bits.
pub open spec fn days_fit(days: nat) -> bool {
    days * 86400 <= u64::MAX
}

/// Whether the seconds of so many days are a number of 64 bits.
pub fn can_reach_back(days: u64) -> (r: bool)
    ensures
        r == days_fit(days as nat),
{
    days <= u64::MAX / DAY
}

/// Whether a file was changed less than so many days before `now`.
pub open spec fn recent(modified: Moment, now: Moment, days: nat) -> bool {
    modified.total() > now.total() - days * 86400 * 1_000_000_000
}

/// Whether a file was changed less than so many days before `now`.
pub fn is_recent(modified: Moment, now: Moment, days: u64) -> (r: bool)
    requires
        days_fit(days as nat),
    ensures
        r == recent(modified, now, days as nat),
{
    let age: i128 = days as i128 * 86400 * 1_000_000_000;
    modified.as_nanos() > now.as_nanos() - age
}

/// What is found in a folder that is cleaned.
#[derive(Clone, Copy, Debug)]
pub struct Found {
    pub is_dir: bool,
    /// Whether there is nothing in it, for a directory.
    pub is_empty: bool,
    /// Whether it is too young to be cleaned away, for a file.
    pub is_recent: bool,
}

/// How a folder is cleaned.
#[derive(Clone, Copy, Debug)]
pub struct Cleaning {
    pub has_remote: bool,
    pub has_move_to: bool,
    pub use_rsync: bool,
    pub empty_dirs: bool,
    pub dry_run: bool,
}

/// What becomes of something in a folder that is cleaned.
#[derive(Clone, Copy, Debug, PartialEq, Eq, Structural)]
pub enum CleanAction {
    Keep,
    DropDir,
    SendAway,
    MoveHere,
    Delete,
}

/// What becomes of something in a folder that is cleaned; `None` if it would
/// have to be sent away by means that are not there.
pub open spec fn clean_choice(found: Found, how: Cleaning) -> Option<CleanAction> {
    if found.is_dir {
        Some(
            if how.empty_dirs && found.is_empty {
                CleanAction::DropDir
            } else {
                CleanAction::Keep
            },
        )
    } else if found.is_recent {
        Some(CleanAction::Keep)
    } else if how.has_remote {
        if !how.has_move_to {
            Some(CleanAction::Keep)
        } else if how.dry_run || how.use_rsync {
            Some(CleanAction::SendAway)
        } else {
            None
        }
    } else if how.has_move_to {
        Some(CleanAction::MoveHere)
    } else {
        Some(CleanAction::Delete)
    }
}

/// What becomes of something in a folder that is cleaned.
pub fn clean_action(found: Found, how: Cleaning) -> (r: Result<CleanAction, &'static str>)
    ensures
        match clean_choice(found, how) {
            Some(action) => r == Ok::<CleanAction, &'static str>(action),
            None => r is Err && r->Err_0@ == "remote clean --move-to currently requires --rsync"@,
        },
{
    if found.is_dir {
        if how.empty_dirs && found.is_empty {
            return Ok(CleanAction::DropDir);
        }
        return Ok(CleanAction::Keep);
    }
    if found.is_recent {
        return Ok(CleanAction::Keep);
    }
    if how.has_remote {
        if !how.has_move_to {
            Ok(CleanAction::Keep)
        } else if how.dry_run || how.use_rsync {
            Ok(CleanAction::SendAway)
        } else {
            Err("remote clean --move-to currently requires --rsync")
        }
    } else if how.has_move_to {
        Ok(CleanAction::MoveHere)
    } else {
        Ok(CleanAction::Delete)
    }
}

/// What is done about something in a folder that is cleaned. `dest` is where
/// it goes, and `remote` the machine that it goes to, where it goes anywhere;
/// `plan` is how it gets there if it is moved here, and where it is left, no
/// move is recorded.
pub open spec fn clean_plan(
    action: CleanAction,
    plan: MovePlan,
    dry_run: bool,
    entry: Seq<char>,
    dest: Seq<char>,
    remote: Seq<char>,
) -> Seq<Step> {
    match action {
        CleanAction::Keep => seq![],
        CleanAction::DropDir => if dry_run {
            seq![Step::Say("would remove empty dir "@ + entry)]
        } else {
            seq![Step::RemoveEmptyDir]
        },
        CleanAction::SendAway => if dry_run {
            seq![Step::Say(arrow("would move "@, entry, remote + ":"@ + dest))]
        } else {
            seq![Step::Send, Step::Delete]
        },
        CleanAction::MoveHere => if dry_run {
            seq![Step::Say(arrow("would move "@, entry, dest))]
        } else if plan == MovePlan::Leave {
            seq![]
        } else {
            seq![Step::MakeParent] + moving(plan) + seq![Step::RecordUndo]
        },
        CleanAction::Delete => if dry_run {
            seq![Step::Say("would delete "@ + entry)]
        } else {
            seq![Step::Delete]
        },
    }
}

/// What is done about something in a folder that is cleaned.
pub fn clean_path(
    action: CleanAction,
    plan: MovePlan,
    dry_run: bool,
    entry: &str,
    dest: &str,
    remote: &str,
) -> (r: Vec<FileStep>)
    ensures
        steps_of(r@) == clean_plan(action, plan, dry_run, entry@, dest@, remote@),
{
    let mut out: Vec<FileStep> = Vec::new();
    match action {
        CleanAction::Keep => {},
        CleanAction::DropDir => {
            if dry_run {
                out.push(FileStep::Say(two_parts("would remove empty dir ", entry)));
            } else {
                out.push(FileStep::RemoveEmptyDir);
            }
        },
        CleanAction::SendAway => {
            if dry_run {
                let mut place = remote.to_owned();
                place.append(":");
                place.append(dest);
                out.push(FileStep::Say(arrow_text("would move ", entry, place.as_str())));
            } else {
                out.push(FileStep::Send);
                out.push(FileStep::Delete);
            }
        },
        CleanAction::MoveHere => {
            if dry_run {
                out.push(FileStep::Say(arrow_text("would move ", entry, dest)));
            } else if !matches!(plan, MovePlan::Leave) {
                push_step(&mut out, FileStep::MakeParent);
                push_moving(&mut out, plan);
                push_step(&mut out, FileStep::RecordUndo);
            }
        },
        CleanAction::Delete => {
            if dry_run {
                out.push(FileStep::Say(two_parts("would delete ", entry)));
            } else {
                out.push(FileStep::Delete);
            }
        },
    }
    assert(steps_of(out@) =~= clean_plan(action, plan, dry_run, entry@, dest@, remote@));
    out
}

/// What is done about an archive when its task is run once.
#[derive(Clone, Debug, PartialEq, Eq)]
pub enum UnzipOnce {
    /// A line is printed.
    Say(String),
    /// The archive is unpacked.
    Unpack,
}

/// What is done about an archive when its task is run once: it is unpacked,
/// unless the task is only rehearsed.
pub fn unzip_once(path: &str, dry_run: bool) -> (r: UnzipOnce)
    ensures
        if dry_run {
            r matches UnzipOnce::Say(line) && line@ == "would unzip "@ + path@
        } else {
            r is Unpack
        },
{
    if dry_run {
        UnzipOnce::Say(two_parts("would unzip ", path))
    } else {
        UnzipOnce::Unpack
    }
}

/// What is done about a folder when its task is run once.
#[derive(Clone, Debug, PartialEq, Eq)]
pub enum MirrorOnce {
    /// A line is printed.
    Say(String),
    /// The folder is copied to the destination on this machine.
    Here,
    /// The folder is brought to the destination on another machine by `rsync`.
    ByRsync { dest: String, remote: String, port: u16 },
    /// The folder is copied to the destination on another machine by `scp`.
    ByScp { dest: String, remote: String, port: u16 },
}

/// Whether `once` copies a folder to the machine that its task names, by the
/// means and through the port that the task names, or here if it names none.
pub open spec fn is_mirror_once(
    dest: Seq<char>,
    remote: Option<Seq<char>>,
    port: Option<u16>,
    use_rsync: bool,
    once: MirrorOnce,
) -> bool {
    match remote {
        None => once is Here,
        Some(machine) => if use_rsync {
            once matches MirrorOnce::ByRsync { dest: d, remote: m, port: p } && d@ == normalized(
                dest,
            ) && m@ == machine && p == port_or_default(port)
        } else {
            once matches MirrorOnce::ByScp { dest: d, remote: m, port: p } && d@ == normalized(
                dest,
            ) && m@ == machine && p == port_or_default(port)
        },
    }
}

/// What is done about a folder when its task is run once: it is copied to the
/// machine that the task names, by the means and through the port that it
/// names, or here if it names none, unless the task is only rehearsed.
pub fn mirror_once(
    src: &str,
    dest: &str,
    remote: Option<&str>,
    port: Option<u16>,
    use_rsync: bool,
    dry_run: bool,
) -> (r: MirrorOnce)
    ensures
        if dry_run {
            r matches MirrorOnce::Say(line) && line@ == arrow("would mirror "@, src@, dest@)
        } else {
            is_mirror_once(dest@, opt_str(remote), port, use_rsync, r)
        },
{
    if dry_run {
        return MirrorOnce::Say(arrow_text("would mirror ", src, dest));
    }
    match remote {
        None => MirrorOnce::Here,
        Some(machine) => {
            let dest = normalize_remote_dest(dest.to_owned());
            let remote = machine.to_owned();
            let port: u16 = port_to_use(port);
            if use_rsync {
                MirrorOnce::ByRsync { dest, remote, port }
            } else {
                MirrorOnce::ByScp { dest, remote, port }
            }
        },
    }
}

/// What the history says of a file that was unpacked.
pub fn extracted(path: &str) -> (r: String)
    ensures
        r@ == "extracted "@ + path@,
{
    two_parts("extracted ", path)
}

/// What the history says of an archive that could not be unpacked.
pub fn unzip_failed(path: &str, error: &str) -> (r: String)
    ensures
        r@ == "unzip failed "@ + path@ + ": "@ + error@,
{
    let mut out = two_parts("unzip failed ", path);
    out.append(": ");
    out.append(error);
    out
}

/// What the history says of a folder that could not be copied.
pub fn mirror_failed(src: &str, dest: &str, error: &str) -> (r: String)
    ensures
        r@ == arrow("mirror failed "@, src@, dest@) + ": "@ + error@,
{
    let mut out = arrow_text("mirror failed ", src, dest);
    out.append(": ");
    out.append(error);
    out
}

/// What the history says of a file that could not be sorted.
pub fn sort_failed(path: &str, error: &str) -> (r: String)
    ensures
        r@ == "sort failed "@ + path@ + ": "@ + error@,
{
    let mut out = two_parts("sort failed ", path);
    out.append(": ");
    out.append(error);
    out
}

/// Something that happened at the time `time`, for the record. It is not put
/// down to any task.
pub fn history_event_at(time: i64, level: &str, message: String) -> (r: HistoryEvent)
    ensures
        r.ts == time,
        r.task is None,
        r.level@ == level@,
        r.message == message,
{
    HistoryEvent { ts: time, task: None, level: level.to_owned(), message }
}

/// Something that happened now, for the record. It is not put down to any task.
pub fn history_event(level: &str, message: String) -> (r: HistoryEvent)
    ensures
        is_time(r.ts as int),
        r.task is None,
        r.level@ == level@,
        r.message == message,
{
    history_event_at(now(), level, message)
}

} // verus!
