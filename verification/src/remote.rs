//! Mirroring to another machine: the commands that reach it, and what a change
//! on this side asks of the other.

use vstd::prelude::*;
use vstd::string::*;

use crate::number::{decimal, decimal_int};
use crate::number::{to_decimal, to_decimal_int};
use crate::paths::Platform;
use crate::shell::CommandLine;
use crate::shell::single_quoted;
use crate::shell::single_quote_for_shell;
use crate::text::{lower_char, replaced, trimmed};
use crate::text::{begins_with, char_to_lower, chars_of, has_char, push_text, push_two};
use crate::text::{replace_char, rfind_char, same_text, text_between, trim};

verus! {

/// A machine that files are copied to.
#[derive(Clone, Debug)]
pub struct RemoteClient {
    pub user_host: String,
    pub port: u16,
}

/// The message about a machine that is not named by a user and a host.
pub open spec fn bad_remote() -> Seq<char> {
    "Invalid remote format. Use user@host"@
}

/// `place` on the machine `host`.
pub open spec fn on_host(host: Seq<char>, place: Seq<char>) -> Seq<char> {
    host + ":"@ + place
}

fn host_place(host: &str, place: &str) -> (r: String)
    ensures
        r@ == on_host(host@, place@),
{
    let mut out = host.to_owned();
    out.append(":");
    out.append(place);
    out
}

/// A command for the other side that takes one path.
pub open spec fn path_command(command: Seq<char>, path: Seq<char>) -> Seq<char> {
    command + " \""@ + path + "\""@
}

impl RemoteClient {
    /// The arguments by which `ssh` reaches the machine and has it run the
    /// command.
    pub open spec fn ssh_words(self, command: Seq<char>) -> Seq<Seq<char>> {
        seq!["ssh"@, "-p"@, decimal(self.port as nat), self.user_host@, command]
    }

    /// Takes the machine `remote`, which has to be written as `user@host`.
    pub fn connect(remote: &str, port: u16) -> (r: Result<RemoteClient, String>)
        ensures
            if remote@.contains('@') {
                r is Ok && r->Ok_0.user_host@ == remote@ && r->Ok_0.port == port
            } else {
                r is Err && r->Err_0@ == bad_remote()
            },
    {
        if !has_char(remote, '@') {
            return Err("Invalid remote format. Use user@host".to_owned());
        }
        Ok(RemoteClient { user_host: remote.to_owned(), port })
    }

    /// The command that tries whether the machine can be reached without a
    /// password.
    pub fn connection_test(&self) -> (r: CommandLine)
        ensures
            r.words() == seq![
                "ssh"@,
                "-p"@,
                decimal(self.port as nat),
                "-o"@,
                "BatchMode=yes"@,
                "-o"@,
                "ConnectTimeout=5"@,
                self.user_host@,
                "exit"@,
            ],
    {
        let mut args: Vec<String> = Vec::new();
        push_two(&mut args, "-p", to_decimal(self.port as u128).as_str());
        push_two(&mut args, "-o", "BatchMode=yes");
        push_two(&mut args, "-o", "ConnectTimeout=5");
        push_two(&mut args, self.user_host.as_str(), "exit");
        let line = CommandLine { program: "ssh".to_owned(), args };
        assert(line.words() =~= seq![
            "ssh"@,
            "-p"@,
            decimal(self.port as nat),
            "-o"@,
            "BatchMode=yes"@,
            "-o"@,
            "ConnectTimeout=5"@,
            self.user_host@,
            "exit"@,
        ]);
        line
    }

    /// The command that copies a file to the machine.
    pub fn copy_file(&self, local_path: &str, remote_path: &str) -> (r: CommandLine)
        ensures
            r.words() == seq![
                "scp"@,
                "-P"@,
                decimal(self.port as nat),
                local_path@,
                on_host(self.user_host@, remote_path@),
            ],
    {
        let mut args: Vec<String> = Vec::new();
        push_two(&mut args, "-P", to_decimal(self.port as u128).as_str());
        let place = host_place(self.user_host.as_str(), remote_path);
        push_two(&mut args, local_path, place.as_str());
        let line = CommandLine { program: "scp".to_owned(), args };
        assert(line.words() =~= seq![
            "scp"@,
            "-P"@,
            decimal(self.port as nat),
            local_path@,
            on_host(self.user_host@, remote_path@),
        ]);
        line
    }

    fn ssh(&self, command: &str, path: &str) -> (r: CommandLine)
        ensures
            r.words() == self.ssh_words(path_command(command@, path@)),
    {
        let mut args: Vec<String> = Vec::new();
        push_two(&mut args, "-p", to_decimal(self.port as u128).as_str());
        let mut text = command.to_owned();
        text.append(" \"");
        text.append(path);
        text.append("\"");
        push_two(&mut args, self.user_host.as_str(), text.as_str());
        let line = CommandLine { program: "ssh".to_owned(), args };
        assert(line.words() =~= self.ssh_words(path_command(command@, path@)));
        line
    }

    /// The command that removes a file or a directory on the machine.
    pub fn remove_path(&self, remote_path: &str) -> (r: CommandLine)
        ensures
            r.words() == self.ssh_words(path_command("rm -rf"@, remote_path@)),
    {
        self.ssh("rm -rf", remote_path)
    }

    /// The command that makes a directory on the machine.
    pub fn create_dir(&self, remote_path: &str) -> (r: CommandLine)
        ensures
            r.words() == self.ssh_words(path_command("mkdir -p"@, remote_path@)),
    {
        self.ssh("mkdir -p", remote_path)
    }

    /// The words of the command that copies `path`, with all that is in it.
    pub open spec fn copy_all_words(self, path: Seq<char>, dest: Seq<char>) -> Seq<Seq<char>> {
        seq![
            "scp"@,
            "-r"@,
            "-P"@,
            decimal(self.port as nat),
            path,
            on_host(self.user_host@, dest),
        ]
    }

    /// The commands that copy a folder to the machine for the first time: one
    /// that makes the directory, then one for each entry of the folder.
    pub fn sync_dir(&self, entries: &Vec<String>, remote_dest: &str) -> (r: Vec<CommandLine>)
        ensures
            r@.len() == entries@.len() + 1,
            r@[0].words() == self.ssh_words(path_command("mkdir -p"@, remote_dest@)),
            forall|i: int|
                0 <= i < entries@.len() ==> (#[trigger] r@[i + 1]).words() == self.copy_all_words(
                    entries@[i]@,
                    remote_dest@,
                ),
    {
        let mut out: Vec<CommandLine> = Vec::new();
        out.push(self.create_dir(remote_dest));
        let mut i: usize = 0;
        while i < entries.len()
            invariant
                i <= entries@.len(),
                out@.len() == i + 1,
                out@[0].words() == self.ssh_words(path_command("mkdir -p"@, remote_dest@)),
                forall|j: int|
                    0 <= j < i ==> (#[trigger] out@[j + 1]).words() == self.copy_all_words(
                        entries@[j]@,
                        remote_dest@,
                    ),
            decreases entries.len() - i,
        {
            let mut args: Vec<String> = Vec::new();
            push_two(&mut args, "-r", "-P");
            push_text(&mut args, to_decimal(self.port as u128).as_str());
            let place = host_place(self.user_host.as_str(), remote_dest);
            push_two(&mut args, entries[i].as_str(), place.as_str());
            let line = CommandLine { program: "scp".to_owned(), args };
            assert(line.words() =~= self.copy_all_words(entries@[i as int]@, remote_dest@));
            out.push(line);
            i = i + 1;
        }
        out
    }
}

/// The message about a command that ended with the given status.
pub fn failed_with(what: &str, status: &str) -> (r: String)
    ensures
        r@ == what@ + " failed with status "@ + status@,
{
    let mut out = what.to_owned();
    out.append(" failed with status ");
    out.append(status);
    out
}

/// A path on the other side, with the home directory left to be the one that
/// a session starts in.
pub open spec fn normalized(dest: Seq<char>) -> Seq<char> {
    if "~/"@.is_prefix_of(dest) {
        "./"@ + dest.skip(2)
    } else if dest == "~"@ {
        "."@
    } else {
        dest
    }
}

/// A path on the other side, with the home directory left to be the one that
/// a session starts in.
pub fn normalize_remote_dest(remote_dest: String) -> (r: String)
    ensures
        r@ == normalized(remote_dest@),
{
    proof {
        reveal_strlit("~/");
    }
    if begins_with(remote_dest.as_str(), "~/") {
        let chars = chars_of(remote_dest.as_str());
        let mut out = "./".to_owned();
        out.append(text_between(&chars, 2, chars.len()).as_str());
        assert(out@ =~= normalized(remote_dest@));
        out
    } else if same_text(remote_dest.as_str(), "~") {
        ".".to_owned()
    } else {
        remote_dest
    }
}

/// What changed.
#[derive(Clone, Copy, Debug, PartialEq, Eq, Structural)]
pub enum ChangeKind {
    Create,
    Modify,
    Remove,
    Other,
}

/// What is to be done on the other side.
#[derive(Clone, Debug)]
pub enum RemoteAction {
    /// Make the directory.
    MakeDir(String),
    /// Make the directory, so that a file can be copied into it.
    MakeParent(String),
    /// Copy the file that changed to the given path.
    Copy(String),
    /// Remove the file or directory.
    Remove(String),
}

impl RemoteAction {
    /// The path that the action is about.
    pub open spec fn path(self) -> Seq<char> {
        match self {
            RemoteAction::MakeDir(p) => p@,
            RemoteAction::MakeParent(p) => p@,
            RemoteAction::Copy(p) => p@,
            RemoteAction::Remove(p) => p@,
        }
    }
}

/// The place on the other side of what is at `relative` in the folder.
pub open spec fn remote_place(dest: Seq<char>, relative: Seq<char>) -> Seq<char> {
    dest + "/"@ + replaced(relative, '\\', "/"@)
}

/// Whether `parent` is all of `path` before its last slash.
pub open spec fn is_parent(path: Seq<char>, parent: Seq<char>) -> bool {
    &&& parent.len() < path.len()
    &&& parent == path.take(parent.len() as int)
    &&& path[parent.len() as int] == '/'
    &&& !path.skip(parent.len() as int + 1).contains('/')
}

/// What a change asks of the other side. `relative` is the path that changed,
/// as seen from the folder, if it lies in the folder at all; `is_dir` and
/// `is_file` say what is there now.
pub fn mirror_actions(
    kind: ChangeKind,
    relative: Option<&str>,
    is_dir: bool,
    is_file: bool,
    remote_dest: &str,
) -> (r: Vec<RemoteAction>)
    ensures
        match relative {
            None => r@.len() == 0,
            Some(relative) => {
                let place = remote_place(remote_dest@, relative@);
                match kind {
                    ChangeKind::Create | ChangeKind::Modify => if is_dir {
                        r@.len() == 1 && r@[0] is MakeDir && r@[0].path() == place
                    } else if is_file {
                        &&& r@.len() == 2
                        &&& r@[0] is MakeParent
                        &&& is_parent(place, r@[0].path())
                        &&& r@[1] is Copy
                        &&& r@[1].path() == place
                    } else {
                        r@.len() == 0
                    },
                    ChangeKind::Remove => r@.len() == 1 && r@[0] is Remove && r@[0].path()
                        == place,
                    ChangeKind::Other => r@.len() == 0,
                }
            },
        },
{
    let mut out: Vec<RemoteAction> = Vec::new();
    let relative = match relative {
        None => {
            return out;
        },
        Some(relative) => relative,
    };
    let mut place = remote_dest.to_owned();
    place.append("/");
    place.append(replace_char(relative, '\\', "/").as_str());
    match kind {
        ChangeKind::Create | ChangeKind::Modify => {
            if is_dir {
                out.push(RemoteAction::MakeDir(place));
            } else if is_file {
                let chars = chars_of(place.as_str());
                proof {
                    reveal_strlit("/");
                    assert(place@[remote_dest@.len() as int] == '/');
                }
                if let Some(i) = rfind_char(&chars, '/') {
                    out.push(RemoteAction::MakeParent(text_between(&chars, 0, i)));
                    assert(is_parent(place@, out@[0].path()));
                }
                out.push(RemoteAction::Copy(place));
            }
        },
        ChangeKind::Remove => {
            out.push(RemoteAction::Remove(place));
        },
        ChangeKind::Other => {},
    }
    out
}

/// The exit code of a command, if it has one.
pub open spec fn code_text(code: Option<i32>) -> Seq<char> {
    match code {
        Some(c) => "Some("@ + decimal_int(c as int) + ")"@,
        None => "None"@,
    }
}

/// What a command put out, without blank space around it.
pub open spec fn output_text(output: Seq<char>) -> Seq<char> {
    if trimmed(output).len() == 0 {
        "<empty>"@
    } else {
        trimmed(output)
    }
}

fn output_or_empty(output: &str) -> (r: String)
    ensures
        r@ == output_text(output@),
{
    let text = trim(output);
    if text.as_str().is_empty() {
        "<empty>".to_owned()
    } else {
        text
    }
}

/// The message about a command that failed, with all that it put out.
pub fn command_error(
    cmd_label: &str,
    code: Option<i32>,
    stdout: &str,
    stderr: &str,
) -> (r: String)
    ensures
        r@ == cmd_label@ + " failed with status "@ + code_text(code) + "\nstdout:\n"@
            + output_text(stdout@) + "\nstderr:\n"@ + output_text(stderr@),
{
    let code = match code {
        Some(c) => {
            let mut text = "Some(".to_owned();
            text.append(to_decimal_int(c as i64).as_str());
            text.append(")");
            text
        },
        None => "None".to_owned(),
    };
    let mut out = cmd_label.to_owned();
    out.append(" failed with status ");
    out.append(code.as_str());
    out.append("\nstdout:\n");
    out.append(output_or_empty(stdout).as_str());
    out.append("\nstderr:\n");
    out.append(output_or_empty(stderr).as_str());
    out
}

/// `s` without `prefix`, if it begins with it.
pub open spec fn without_prefix(s: Seq<char>, prefix: Seq<char>) -> Seq<char> {
    if prefix.is_prefix_of(s) {
        s.skip(prefix.len() as int)
    } else {
        s
    }
}

/// `s` without `prefix`, if it begins with it.
pub fn strip_start(s: &str, prefix: &str) -> (r: String)
    ensures
        r@ == without_prefix(s@, prefix@),
{
    if begins_with(s, prefix) {
        let chars = chars_of(s);
        let n: usize = chars_of(prefix).len();
        let out = text_between(&chars, n, chars.len());
        assert(out@ =~= s@.skip(n as int));
        out
    } else {
        s.to_owned()
    }
}

/// Where a path that begins with a drive is found from inside the Linux
/// subsystem: below a directory named after the drive. Any other path has no
/// such place.
pub open spec fn drive_place(path: Seq<char>) -> Option<Seq<char>> {
    if path.len() >= 3 && path[0] < '\u{80}' && path[1] == ':' && path[2] == '/' {
        Some("/mnt/"@.push(lower_char(path[0])) + "/"@ + path.skip(3))
    } else {
        None
    }
}

/// The message about a path that is not found from inside the Linux subsystem.
pub open spec fn unsupported_path(path: Seq<char>) -> Seq<char> {
    "Unsupported Windows path for WSL rsync: "@ + path
}

/// Where the path is found from inside the Linux subsystem. Its separators are
/// taken either way.
pub fn drive_path_to_wsl(path: &str) -> (r: Result<String, String>)
    ensures
        match drive_place(replaced(path@, '\\', "/"@)) {
            Some(place) => r is Ok && r->Ok_0@ == place,
            None => r is Err && r->Err_0@ == unsupported_path(replaced(path@, '\\', "/"@)),
        },
{
    let raw = replace_char(path, '\\', "/");
    let chars = chars_of(raw.as_str());
    if chars.len() >= 3 && chars[0] < '\u{80}' && chars[1] == ':' && chars[2] == '/' {
        let mut out = "/mnt/".to_owned();
        out.push(char_to_lower(chars[0]));
        out.append("/");
        let rest = text_between(&chars, 3, chars.len());
        assert(rest@ =~= raw@.skip(3));
        out.append(rest.as_str());
        Ok(out)
    } else {
        let mut out = "Unsupported Windows path for WSL rsync: ".to_owned();
        out.append(raw.as_str());
        Err(out)
    }
}

/// A path without the prefix that marks it as taken literally, in either
/// spelling.
pub open spec fn bare_path(path: Seq<char>) -> Seq<char> {
    without_prefix(without_prefix(path, "\\\\?\\"@), "//?/"@)
}

/// Where a folder that is mirrored is found from inside the Linux subsystem.
pub open spec fn wsl_place(path: Seq<char>) -> Option<Seq<char>> {
    drive_place(replaced(bare_path(path), '\\', "/"@))
}

/// Where a folder that is mirrored is found from inside the Linux subsystem.
pub fn windows_path_to_wsl(path: &str) -> (r: Result<String, String>)
    ensures
        match wsl_place(path@) {
            Some(place) => r is Ok && r->Ok_0@ == place,
            None => r is Err && r->Err_0@ == unsupported_path(
                replaced(bare_path(path@), '\\', "/"@),
            ),
        },
{
    let raw = strip_start(path, "\\\\?\\");
    let raw = strip_start(raw.as_str(), "//?/");
    drive_path_to_wsl(raw.as_str())
}

/// What follows `-e`: the command by which `rsync` reaches the machine.
pub open spec fn ssh_option(port: nat) -> Seq<char> {
    "ssh -p "@ + decimal(port)
}

/// The line for the shell of the Linux subsystem that mirrors `src`.
pub open spec fn mirror_line(
    src: Seq<char>,
    remote: Seq<char>,
    dest: Seq<char>,
    port: nat,
) -> Seq<char> {
    "rsync -az --delete -e 'ssh -p "@ + decimal(port) + "' '"@ + single_quoted(src) + "/' '"@
        + single_quoted(remote) + ":"@ + single_quoted(dest) + "/'"@
}

/// The words of the command that mirrors `src`.
pub open spec fn mirror_words(
    src: Seq<char>,
    remote: Seq<char>,
    dest: Seq<char>,
    port: nat,
) -> Seq<Seq<char>> {
    seq![
        "rsync"@,
        "-az"@,
        "--delete"@,
        "-e"@,
        ssh_option(port),
        src + "/"@,
        remote + ":"@ + dest + "/"@,
    ]
}

/// The command that brings the folder `src` to the other side.
pub fn rsync_once(
    platform: Platform,
    src: &str,
    remote_dest: &str,
    remote: &str,
    port: u16,
) -> (r: Result<CommandLine, String>)
    ensures
        match platform {
            Platform::Windows => match wsl_place(src@) {
                Some(place) => r is Ok && r->Ok_0.words() == seq![
                    "wsl"@,
                    "sh"@,
                    "-lc"@,
                    mirror_line(place, remote@, remote_dest@, port as nat),
                ],
                None => r is Err && r->Err_0@ == unsupported_path(
                    replaced(bare_path(src@), '\\', "/"@),
                ),
            },
            Platform::Unix => r is Ok && r->Ok_0.words() == mirror_words(
                replaced(src@, '\\', "/"@),
                remote@,
                remote_dest@,
                port as nat,
            ),
        },
{
    let mut args: Vec<String> = Vec::new();
    match platform {
        Platform::Windows => {
            let place = match windows_path_to_wsl(src) {
                Ok(place) => place,
                Err(e) => {
                    return Err(e);
                },
            };
            let mut line = "rsync -az --delete -e 'ssh -p ".to_owned();
            line.append(to_decimal(port as u128).as_str());
            line.append("' '");
            line.append(single_quote_for_shell(place.as_str()).as_str());
            line.append("/' '");
            line.append(single_quote_for_shell(remote).as_str());
            line.append(":");
            line.append(single_quote_for_shell(remote_dest).as_str());
            line.append("/'");
            push_two(&mut args, "sh", "-lc");
            push_text(&mut args, line.as_str());
            let command = CommandLine { program: "wsl".to_owned(), args };
            assert(command.words() =~= seq!["wsl"@, "sh"@, "-lc"@, line@]);
            Ok(command)
        },
        Platform::Unix => {
            let mut from = replace_char(src, '\\', "/");
            from.append("/");
            let mut to = remote.to_owned();
            to.append(":");
            to.append(remote_dest);
            to.append("/");
            let mut reach = "ssh -p ".to_owned();
            reach.append(to_decimal(port as u128).as_str());
            push_two(&mut args, "-az", "--delete");
            push_two(&mut args, "-e", reach.as_str());
            push_two(&mut args, from.as_str(), to.as_str());
            let command = CommandLine { program: "rsync".to_owned(), args };
            assert(command.words() =~= mirror_words(
                replaced(src@, '\\', "/"@),
                remote@,
                remote_dest@,
                port as nat,
            ));
            Ok(command)
        },
    }
}

/// What the command of [`rsync_once`] is called in messages.
pub fn rsync_label(platform: Platform) -> (r: &'static str)
    ensures
        r@ == match platform {
            Platform::Windows => "wsl rsync"@,
            Platform::Unix => "rsync"@,
        },
{
    match platform {
        Platform::Windows => "wsl rsync",
        Platform::Unix => "rsync",
    }
}

} // verus!
