//! The programs that copying needs, and what is said where one is missing.

use vstd::prelude::*;
use vstd::string::*;

use crate::paths::Platform;
use crate::shell::CommandLine;
use crate::text::{push_text, push_two};

verus! {

/// Something that is looked for by running it.
#[derive(Clone, Copy, Debug, PartialEq, Eq, Structural)]
pub enum Probe {
    /// `scp` can be started.
    Scp,
    /// `rsync` can be started.
    Rsync,
    /// The Linux subsystem can be started.
    Wsl,
    /// `rsync` is installed in the Linux subsystem.
    RsyncInWsl,
}

/// What is looked for first before a folder is mirrored. `is_remote` says
/// whether it is mirrored to another machine, and `use_rsync` whether `rsync`
/// was asked for.
pub open spec fn first_probe(platform: Platform, is_remote: bool, use_rsync: bool) -> Probe {
    if is_remote && !use_rsync {
        Probe::Scp
    } else {
        match platform {
            Platform::Windows => Probe::Wsl,
            Platform::Unix => Probe::Rsync,
        }
    }
}

/// What is looked for first before a folder is mirrored.
pub fn ensure_mirror_requirements(platform: Platform, is_remote: bool, use_rsync: bool) -> (r:
    Probe)
    ensures
        r == first_probe(platform, is_remote, use_rsync),
{
    if is_remote && !use_rsync {
        Probe::Scp
    } else {
        match platform {
            Platform::Windows => Probe::Wsl,
            Platform::Unix => Probe::Rsync,
        }
    }
}

/// The message about something that was looked for in vain.
pub open spec fn missing(platform: Platform, probe: Probe) -> Seq<char> {
    match probe {
        Probe::Scp => match platform {
            Platform::Windows =>
                "scp is not available. Use '--rsync' to mirror via WSL rsync, or install OpenSSH scp."@,
            Platform::Unix => "scp is not installed. Install OpenSSH scp or use '--rsync'."@,
        },
        Probe::Rsync => "rsync is not installed. Please install rsync and retry."@,
        Probe::Wsl =>
            "WSL is not enabled. Enable WSL first, then install rsync inside WSL. For remote mirrors on Windows you can also skip '--rsync' to use scp."@,
        Probe::RsyncInWsl =>
            "rsync is not installed in WSL. Install it in your distro (e.g. 'sudo apt install rsync'). For remote mirrors on Windows you can use scp by omitting '--rsync'."@,
    }
}

/// What follows when something was looked for: what is looked for next, if
/// anything, or the message about what is missing.
pub fn after_probe(platform: Platform, probe: Probe, found: bool) -> (r: Result<
    Option<Probe>,
    &'static str,
>)
    ensures
        if !found {
            r is Err && r->Err_0@ == missing(platform, probe)
        } else if probe == Probe::Wsl {
            r == Ok::<Option<Probe>, &'static str>(Some(Probe::RsyncInWsl))
        } else {
            r == Ok::<Option<Probe>, &'static str>(None)
        },
{
    if found {
        return match probe {
            Probe::Wsl => Ok(Some(Probe::RsyncInWsl)),
            _ => Ok(None),
        };
    }
    Err(
        match probe {
            Probe::Scp => match platform {
                Platform::Windows =>
                    "scp is not available. Use '--rsync' to mirror via WSL rsync, or install OpenSSH scp.",
                Platform::Unix => "scp is not installed. Install OpenSSH scp or use '--rsync'.",
            },
            Probe::Rsync => "rsync is not installed. Please install rsync and retry.",
            Probe::Wsl =>
                "WSL is not enabled. Enable WSL first, then install rsync inside WSL. For remote mirrors on Windows you can also skip '--rsync' to use scp.",
            Probe::RsyncInWsl =>
                "rsync is not installed in WSL. Install it in your distro (e.g. 'sudo apt install rsync'). For remote mirrors on Windows you can use scp by omitting '--rsync'.",
        },
    )
}

/// The words of the command by which something is looked for.
pub open spec fn probe_words(probe: Probe) -> Seq<Seq<char>> {
    match probe {
        Probe::Scp => seq!["scp"@, "-V"@],
        Probe::Rsync => seq!["rsync"@, "--version"@],
        Probe::Wsl => seq!["wsl"@, "--status"@],
        Probe::RsyncInWsl => seq!["wsl"@, "sh"@, "-lc"@, "command -v rsync >/dev/null 2>&1"@],
    }
}

/// The command by which something is looked for, and whether it has to succeed;
/// otherwise it is enough that it can be started.
pub fn probe_command(probe: Probe) -> (r: (CommandLine, bool))
    ensures
        r.0.words() == probe_words(probe),
        r.1 == (probe == Probe::RsyncInWsl),
{
    let mut args: Vec<String> = Vec::new();
    let (program, success) = match probe {
        Probe::Scp => {
            push_text(&mut args, "-V");
            ("scp", false)
        },
        Probe::Rsync => {
            push_text(&mut args, "--version");
            ("rsync", false)
        },
        Probe::Wsl => {
            push_text(&mut args, "--status");
            ("wsl", false)
        },
        Probe::RsyncInWsl => {
            push_two(&mut args, "sh", "-lc");
            push_text(&mut args, "command -v rsync >/dev/null 2>&1");
            ("wsl", true)
        },
    };
    let line = CommandLine { program: program.to_owned(), args };
    assert(line.words() =~= probe_words(probe));
    (line, success)
}

} // verus!
