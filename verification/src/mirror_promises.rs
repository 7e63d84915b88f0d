//! What the operations that mirror folders promise of whatever they return.

use vstd::prelude::*;
use vstd::string::*;

use crate::number::{NumberError, parse_undoes_decimal, parsed};
use crate::paths::Platform;
use crate::policy::ConflictPolicy;
use crate::remote::{ChangeKind, RemoteAction, RemoteClient, bare_path, command_error};
use crate::remote::{drive_path_to_wsl, drive_place, failed_with, is_parent, mirror_actions};
use crate::remote::{normalize_remote_dest, normalized, path_command, rsync_label, rsync_once};
use crate::remote::{strip_start, windows_path_to_wsl, wsl_place};
use crate::shell::{CommandLine, shell_words};
use crate::text::{lower_char, replaced, texts};
use crate::text_laws::characters_keep_their_places;
use crate::transfer_laws::{commands_reach_the_machine, different_ports_are_different_transfers};
use crate::transfer_laws::{drives_are_mounted_by_letter, goes_through_port};
use crate::transfer_laws::{home_is_where_a_session_starts, local_mirror_follows_the_policy};
use crate::transfer_laws::{local_mirror_names_patterns_and_paths, local_mirror_says_one_mode};
use crate::transfer_laws::{mirror_brings_the_folder_to_the_machine, path_is_quoted};
use crate::transfer_laws::{places_mirror_the_folder, prefix_is_taken_off};
use crate::transfer_laws::sending_brings_the_file_to_the_machine;
use crate::transfer_laws::spelling_of_windows_paths_does_not_matter;
use crate::transfer_laws::transfers_go_through_the_port;
use crate::watcher::{MirrorOnce, mirror_once, remote_move_with_rsync, slashed_path};
use crate::watcher::sync_dir_with_rsync;

verus! {

/// Mirroring by `rsync` runs it with the folder, the destination on the machine
/// and the port that are given; what is not in the folder is deleted there.
pub proof fn rsync_mirrors_what_it_is_given(
    src: &str,
    dest: &str,
    remote: &str,
    port: u16,
    r: Result<CommandLine, String>,
    i: int,
)
    requires
        call_ensures(rsync_once, (Platform::Unix, src, dest, remote, port), r),
    ensures
        r matches Ok(line) && {
            let words = line.words();
            &&& words.len() == 7
            &&& words[0] == "rsync"@
            &&& words.contains("-az"@)
            &&& words.contains("--delete"@)
            &&& goes_through_port(words, port as nat)
            &&& words[5].len() == src@.len() + 1
            &&& words[5].last() == '/'
            &&& 0 <= i < src@.len() ==> words[5][i] == if src@[i] == '\\' {
                '/'
            } else {
                src@[i]
            }
            &&& words[6] == remote@.push(':') + dest@.push('/')
        },
{
    reveal_strlit("/");
    assert("/"@ =~= seq!['/']);
    let from = replaced(src@, '\\', "/"@);
    transfers_go_through_the_port(from, remote@, dest@, port as nat);
    mirror_brings_the_folder_to_the_machine(from, remote@, dest@, port as nat);
    characters_keep_their_places(src@, '\\', '/');
}

/// On Windows a folder on a drive is mirrored from inside the Linux subsystem by
/// the same command: a shell there runs `rsync` with the place of the folder,
/// the destination on the machine and the port that are given.
pub proof fn rsync_mirrors_drives_through_the_subsystem(
    src: &str,
    c: char,
    rest: Seq<char>,
    dest: &str,
    remote: &str,
    port: u16,
    r: Result<CommandLine, String>,
)
    requires
        'A' <= c <= 'Z' || 'a' <= c <= 'z',
        src@ == seq![c, ':', '\\'] + rest,
        call_ensures(rsync_once, (Platform::Windows, src, dest, remote, port), r),
    ensures
        r matches Ok(line) && {
            let words = line.words();
            let place = seq!['/', 'm', 'n', 't', '/', lower_char(c), '/'] + replaced(
                rest,
                '\\',
                seq!['/'],
            );
            &&& words.len() == 4
            &&& words[0] == "wsl"@
            &&& words[1] == "sh"@
            &&& words[2] == "-lc"@
            &&& shell_words(words[3]) matches Some(run) && run.len() == 7 && run[0] == "rsync"@
                && run.contains("--delete"@) && goes_through_port(run, port as nat) && run[5]
                == place.push('/') && run[6] == remote@.push(':') + dest@.push('/')
        },
{
    spelling_of_windows_paths_does_not_matter(c, rest);
    let place = wsl_place(src@)->0;
    transfers_go_through_the_port(place, remote@, dest@, port as nat);
    mirror_brings_the_folder_to_the_machine(place, remote@, dest@, port as nat);
}

/// A folder that is on no drive is not mirrored from Windows, and the message
/// names it.
pub proof fn rsync_refuses_folders_without_a_drive(
    src: &str,
    dest: &str,
    remote: &str,
    port: u16,
    r: Result<CommandLine, String>,
)
    requires
        call_ensures(rsync_once, (Platform::Windows, src, dest, remote, port), r),
    ensures
        r is Ok <==> wsl_place(src@) is Some,
        r matches Err(e) ==> e@ == "Unsupported Windows path for WSL rsync: "@ + replaced(
            bare_path(src@),
            '\\',
            "/"@,
        ),
        r matches Ok(line) ==> {
            let words = line.words();
            &&& words.len() == 4
            &&& words[0] == "wsl"@
            &&& shell_words(words[3]) matches Some(run) && goes_through_port(run, port as nat)
        },
{
    if let Some(place) = wsl_place(src@) {
        transfers_go_through_the_port(place, remote@, dest@, port as nat);
    }
}

/// Two mirrors that differ in the port are different commands, on either
/// platform.
pub proof fn rsync_tells_ports_apart(
    platform: Platform,
    src: &str,
    dest: &str,
    remote: &str,
    port: u16,
    other: u16,
    r: Result<CommandLine, String>,
    s: Result<CommandLine, String>,
)
    requires
        port != other,
        call_ensures(rsync_once, (platform, src, dest, remote, port), r),
        call_ensures(rsync_once, (platform, src, dest, remote, other), s),
    ensures
        r is Ok <==> s is Ok,
        r matches Ok(a) ==> s matches Ok(b) && a.words() != b.words(),
{
    match platform {
        Platform::Windows => {
            if let Some(place) = wsl_place(src@) {
                different_ports_are_different_transfers(
                    place,
                    remote@,
                    dest@,
                    port as nat,
                    other as nat,
                );
                assert(r->Ok_0.words()[3] != s->Ok_0.words()[3]);
            }
        },
        Platform::Unix => {
            different_ports_are_different_transfers(
                replaced(src@, '\\', "/"@),
                remote@,
                dest@,
                port as nat,
                other as nat,
            );
        },
    }
}

/// Sending a file by `rsync` runs it with that file, the directory on the
/// machine and the port that are given, and deletes nothing there; on Windows
/// through the Linux subsystem, for a file on a drive.
pub proof fn rsync_sends_what_it_is_given(
    platform: Platform,
    path: &str,
    dest: &str,
    remote: &str,
    port: u16,
    r: Result<CommandLine, String>,
)
    requires
        call_ensures(remote_move_with_rsync, (platform, path, dest, remote, port), r),
    ensures
        platform == Platform::Unix ==> (r matches Ok(line) && {
            let words = line.words();
            &&& words.len() == 6
            &&& words[0] == "rsync"@
            &&& words.contains("-az"@)
            &&& goes_through_port(words, port as nat)
            &&& words[4] == path@
            &&& words[5] == remote@.push(':') + dest@.push('/')
            &&& forall|i: int| 0 <= i < 4 ==> #[trigger] words[i] != "--delete"@
        }),
        platform == Platform::Windows ==> (r is Ok <==> drive_place(slashed_path(path@)) is Some),
        platform == Platform::Windows ==> (r matches Ok(line) ==> {
            let words = line.words();
            &&& words.len() == 4
            &&& words[0] == "wsl"@
            &&& words[1] == "sh"@
            &&& words[2] == "-lc"@
            &&& shell_words(words[3]) matches Some(run) && run.len() == 6 && run[0] == "rsync"@
                && goes_through_port(run, port as nat) && Some(run[4]) == drive_place(
                slashed_path(path@),
            ) && run[5] == remote@.push(':') + replaced(dest@, '\\', "/"@).push('/')
        }),
{
    match platform {
        Platform::Windows => {
            if let Some(place) = drive_place(slashed_path(path@)) {
                let to = replaced(dest@, '\\', "/"@);
                transfers_go_through_the_port(place, remote@, to, port as nat);
                sending_brings_the_file_to_the_machine(place, remote@, to, port as nat);
            }
        },
        Platform::Unix => {
            transfers_go_through_the_port(path@, remote@, dest@, port as nat);
            sending_brings_the_file_to_the_machine(path@, remote@, dest@, port as nat);
        },
    }
}

/// Copying a folder here keeps what is there if and only if the policy is to
/// skip; otherwise the copy is made the same as the folder.
pub proof fn local_mirror_is_made_by_the_policy(
    src: &str,
    dest: &str,
    conflict: ConflictPolicy,
    other: ConflictPolicy,
    included: &Vec<String>,
    excluded: &Vec<String>,
    r: CommandLine,
    s: CommandLine,
    i: int,
)
    requires
        call_ensures(sync_dir_with_rsync, (src, dest, conflict, included, excluded), r),
        call_ensures(sync_dir_with_rsync, (src, dest, other, included, excluded), s),
    ensures
        ({
            let words = r.words();
            let n = words.len() as int;
            let e = 3 + 2 * included@.len();
            &&& words[0] == "rsync"@
            &&& words[1] == "-a"@
            &&& words[2] == "--ignore-existing"@ <==> conflict == ConflictPolicy::Skip
            &&& words[2] == "--delete"@ <==> conflict != ConflictPolicy::Skip
            &&& words == s.words() <==> (conflict == ConflictPolicy::Skip <==> other
                == ConflictPolicy::Skip)
            &&& n == 5 + 2 * included@.len() + 2 * excluded@.len()
            &&& 0 <= i < included@.len() ==> words[3 + 2 * i] == "--include"@ && words[4 + 2 * i]
                == included@[i]@
            &&& 0 <= i < excluded@.len() ==> words[e + 2 * i] == "--exclude"@ && words[e + 1 + 2 * i]
                == excluded@[i]@
            &&& words[n - 2].len() == src@.len() + 1 && words[n - 2].last() == '/'
            &&& words[n - 1].len() == dest@.len() + 1 && words[n - 1].last() == '/'
            &&& 0 <= i < src@.len() ==> words[n - 2][i] == if src@[i] == '\\' {
                '/'
            } else {
                src@[i]
            }
            &&& 0 <= i < dest@.len() ==> words[n - 1][i] == if dest@[i] == '\\' {
                '/'
            } else {
                dest@[i]
            }
        }),
        included@.len() == 0 && excluded@.len() == 0 ==> (r.words().contains("--ignore-existing"@)
            <==> conflict == ConflictPolicy::Skip) && (r.words().contains("--delete"@) <==> conflict
            != ConflictPolicy::Skip),
{
    let (a, b) = (texts(included@), texts(excluded@));
    local_mirror_follows_the_policy(src@, dest@, conflict, other, a, b);
    local_mirror_names_patterns_and_paths(src@, dest@, conflict, a, b, i);
    if included@.len() == 0 && excluded@.len() == 0 {
        assert(a =~= seq![] && b =~= seq![]);
        local_mirror_says_one_mode(src@, dest@, conflict);
    }
}

/// A machine is taken if and only if it is named by a user and a host, and then
/// as it is named, with its port.
pub proof fn machines_are_named_by_user_and_host(
    remote: &str,
    port: u16,
    r: Result<RemoteClient, String>,
)
    requires
        call_ensures(RemoteClient::connect, (remote, port), r),
    ensures
        r is Ok <==> exists|i: int| 0 <= i < remote@.len() && remote@[i] == '@',
        r matches Ok(client) ==> client.user_host@ == remote@ && client.port == port,
        r matches Err(e) ==> e@ == "Invalid remote format. Use user@host"@,
{
}

/// The commands for another machine reach it through its port and name it; what
/// they have it do is to the path that is given.
pub proof fn commands_are_for_the_machine(
    client: &RemoteClient,
    local: &str,
    path: &str,
    test: CommandLine,
    copy: CommandLine,
    remove: CommandLine,
    make: CommandLine,
)
    requires
        call_ensures(RemoteClient::connection_test, (client,), test),
        call_ensures(RemoteClient::copy_file, (client, local, path), copy),
        call_ensures(RemoteClient::remove_path, (client, path), remove),
        call_ensures(RemoteClient::create_dir, (client, path), make),
    ensures
        ({
            let words = test.words();
            &&& words[0] == "ssh"@
            &&& words[1] == "-p"@
            &&& parsed(words[2], 65535) == Ok::<nat, NumberError>(client.port as nat)
            &&& words.len() == 9
            &&& words[3] == "-o"@ && words[4] == "BatchMode=yes"@
            &&& words[5] == "-o"@ && words[6] == "ConnectTimeout=5"@
            &&& words[words.len() - 2] == client.user_host@
            &&& words.last() == "exit"@
        }),
        ({
            let words = copy.words();
            &&& words.len() == 5
            &&& words[0] == "scp"@
            &&& words[1] == "-P"@
            &&& parsed(words[2], 65535) == Ok::<nat, NumberError>(client.port as nat)
            &&& words[3] == local@
            &&& words[4] == client.user_host@.push(':') + path@
        }),
        ({
            let words = remove.words();
            &&& words.len() == 5
            &&& words[0] == "ssh"@
            &&& words[1] == "-p"@
            &&& parsed(words[2], 65535) == Ok::<nat, NumberError>(client.port as nat)
            &&& words[3] == client.user_host@
            &&& words[4] == "rm -rf"@ + seq![' ', '"'] + path@.push('"')
        }),
        ({
            let words = make.words();
            &&& words.len() == 5
            &&& words[0] == "ssh"@
            &&& words[1] == "-p"@
            &&& parsed(words[2], 65535) == Ok::<nat, NumberError>(client.port as nat)
            &&& words[3] == client.user_host@
            &&& words[4] == "mkdir -p"@ + seq![' ', '"'] + path@.push('"')
        }),
{
    parse_undoes_decimal(client.port as nat, 65535);
    commands_reach_the_machine(*client, path@, path@);
    path_is_quoted("rm -rf"@, path@);
    path_is_quoted("mkdir -p"@, path@);
    assert(test.words()[4] == "BatchMode=yes"@);
}

/// A folder is copied for the first time by making its directory and then
/// copying each entry with all that is in it, in their order.
pub proof fn first_copy_takes_every_entry(
    client: &RemoteClient,
    entries: &Vec<String>,
    dest: &str,
    r: Vec<CommandLine>,
    i: int,
)
    requires
        call_ensures(RemoteClient::sync_dir, (client, entries, dest), r),
    ensures
        r@.len() == entries@.len() + 1,
        r@[0].words()[0] == "ssh"@,
        r@[0].words()[3] == client.user_host@,
        r@[0].words()[4] == "mkdir -p"@ + seq![' ', '"'] + dest@.push('"'),
        parsed(r@[0].words()[2], 65535) == Ok::<nat, NumberError>(client.port as nat),
        0 <= i < entries@.len() ==> {
            let words = r@[i + 1].words();
            &&& words.len() == 6
            &&& words[0] == "scp"@
            &&& words[1] == "-r"@
            &&& words[2] == "-P"@
            &&& parsed(words[3], 65535) == Ok::<nat, NumberError>(client.port as nat)
            &&& words[4] == entries@[i]@
            &&& words[5] == client.user_host@.push(':') + dest@
        },
{
    parse_undoes_decimal(client.port as nat, 65535);
    path_is_quoted("mkdir -p"@, dest@);
    commands_reach_the_machine(*client, path_command("mkdir -p"@, dest@), dest@);
    if 0 <= i < entries@.len() {
        commands_reach_the_machine(*client, entries@[i]@, dest@);
    }
}

/// A destination below the home directory is one below where a session starts;
/// every other stays as it is.
pub proof fn destinations_are_normalized(dest: String, rest: Seq<char>, r: String)
    requires
        call_ensures(normalize_remote_dest, (dest,), r),
    ensures
        dest@ == seq!['~', '/'] + rest ==> r@ == seq!['.', '/'] + rest,
        dest@ == seq!['~'] ==> r@ == seq!['.'],
        dest@.len() == 0 || dest@[0] != '~' ==> r@ == dest@,
        dest@.len() >= 2 && dest@[1] != '/' ==> r@ == dest@,
{
    home_is_where_a_session_starts(rest);
    home_is_where_a_session_starts(dest@);
}

/// What is created or changed in a folder is brought to its place in the copy: a
/// directory is made, and a file copied once the directory that it lies in was
/// made; what is removed is removed there. All else, and what lies outside the
/// folder, asks for nothing.
pub proof fn changes_are_mirrored(
    kind: ChangeKind,
    relative: Option<&str>,
    is_dir: bool,
    is_file: bool,
    dest: &str,
    r: Vec<RemoteAction>,
)
    requires
        call_ensures(mirror_actions, (kind, relative, is_dir, is_file, dest), r),
    ensures
        ({
            let written = kind == ChangeKind::Create || kind == ChangeKind::Modify;
            &&& r@.len() == 0 <==> relative is None || kind == ChangeKind::Other || written
                && !is_dir && !is_file
            &&& r@.len() == 1 && r@[0] is Remove <==> relative is Some && kind
                == ChangeKind::Remove
            &&& r@.len() == 1 && r@[0] is MakeDir <==> relative is Some && written && is_dir
            &&& r@.len() == 2 && r@[0] is MakeParent && r@[1] is Copy <==> relative is Some
                && written && !is_dir && is_file
        }),
        relative matches Some(at) ==> (r@.len() > 0 ==> {
            let place = r@.last().path();
            &&& place.len() == dest@.len() + 1 + at@.len()
            &&& place.take(dest@.len() as int) == dest@
            &&& place[dest@.len() as int] == '/'
            &&& forall|i: int|
                0 <= i < at@.len() ==> #[trigger] place[dest@.len() + 1 + i] == if at@[i] == '\\' {
                    '/'
                } else {
                    at@[i]
                }
            &&& r@.len() == 2 ==> is_parent(place, r@[0].path())
        }),
{
    if let Some(at) = relative {
        if r@.len() > 0 {
            let place = r@.last().path();
            places_mirror_the_folder(dest@, at@, 0);
            assert forall|i: int| 0 <= i < at@.len() implies #[trigger] place[dest@.len() + 1 + i]
                == (if at@[i] == '\\' {
                '/'
            } else {
                at@[i]
            }) by {
                places_mirror_the_folder(dest@, at@, i);
            }
        }
    }
}

/// A path on a drive is found below the directory for mounted drives, whichever
/// way it is spelled; one that is on no drive is not.
pub proof fn drives_are_found(
    path: &str,
    c: char,
    rest: Seq<char>,
    r: Result<String, String>,
    s: Result<String, String>,
)
    requires
        'A' <= c <= 'Z' || 'a' <= c <= 'z',
        call_ensures(windows_path_to_wsl, (path,), r),
        call_ensures(drive_path_to_wsl, (path,), s),
    ensures
        ({
            let plain = seq![c, ':', '\\'] + rest;
            let place = seq!['/', 'm', 'n', 't', '/', lower_char(c), '/'] + replaced(
                rest,
                '\\',
                seq!['/'],
            );
            &&& path@ == plain || path@ == seq![c, ':', '/'] + rest || path@ == seq![
                '\\',
                '\\',
                '?',
                '\\',
            ] + plain || path@ == seq!['/', '/', '?', '/'] + plain ==> (r matches Ok(p) && p@
                == place)
            &&& path@ == plain ==> (s matches Ok(p) && p@ == place)
        }),
        r is Ok ==> wsl_place(path@) is Some,
        s matches Err(e) ==> e@ == "Unsupported Windows path for WSL rsync: "@ + replaced(
            path@,
            '\\',
            "/"@,
        ),
{
    reveal_strlit("/");
    reveal_strlit("\\\\?\\");
    assert("/"@ =~= seq!['/']);
    spelling_of_windows_paths_does_not_matter(c, rest);
    let plain = seq![c, ':', '\\'] + rest;
    drives_are_mounted_by_letter(c, replaced(rest, '\\', seq!['/']), plain);
    let lit = "\\\\?\\"@;
    if lit.is_prefix_of(plain) {
        assert(plain.subrange(0, 4)[0] == '\\');
    }
    assert(slashed_path(plain) == replaced(plain, '\\', "/"@));
}

/// A prefix is taken off a text that begins with it, and off no other.
pub proof fn prefixes_are_stripped(s: &str, prefix: &str, rest: Seq<char>, r: String)
    requires
        call_ensures(strip_start, (s, prefix), r),
    ensures
        s@ == prefix@ + rest ==> r@ == rest,
        !prefix@.is_prefix_of(s@) ==> r@ == s@,
{
    prefix_is_taken_off(prefix@, rest);
    prefix_is_taken_off(prefix@, s@);
}

/// A mirror that is run once goes where its task says; one that is rehearsed
/// only says where it would lead.
pub proof fn mirrors_run_once_go_where_they_are_told(
    src: &str,
    dest: &str,
    remote: Option<&str>,
    port: Option<u16>,
    use_rsync: bool,
    dry_run: bool,
    r: MirrorOnce,
)
    requires
        call_ensures(mirror_once, (src, dest, remote, port, use_rsync, dry_run), r),
    ensures
        r is Say <==> dry_run,
        r matches MirrorOnce::Say(line) ==> line@ == "would mirror "@ + src@ + " -> "@ + dest@,
        r is Here <==> !dry_run && remote is None,
        r is ByRsync <==> !dry_run && remote is Some && use_rsync,
        r is ByScp <==> !dry_run && remote is Some && !use_rsync,
        r matches MirrorOnce::ByRsync { dest: d, remote: m, port: p } ==> m@ == remote->0@ && (port
            matches Some(given) ==> p == given) && (port is None ==> p == 22) && d@ == normalized(
            dest@,
        ),
        r matches MirrorOnce::ByScp { dest: d, remote: m, port: p } ==> m@ == remote->0@ && (port
            matches Some(given) ==> p == given) && (port is None ==> p == 22) && d@ == normalized(
            dest@,
        ),
{
}

/// What failed is told with all that is known of it.
pub proof fn failures_are_told(
    label: &str,
    status: &str,
    code: Option<i32>,
    out: &str,
    err: &str,
    platform: Platform,
    r: String,
    s: String,
    name: &'static str,
)
    requires
        call_ensures(failed_with, (label, status), r),
        call_ensures(command_error, (label, code, out, err), s),
        call_ensures(rsync_label, (platform,), name),
    ensures
        r@ == label@ + " failed with status "@ + status@,
        (label@ + " failed with status "@).is_prefix_of(s@),
        code is None ==> (label@ + " failed with status None"@).is_prefix_of(s@),
        platform == Platform::Windows <==> name@ == "wsl rsync"@,
        platform == Platform::Unix <==> name@ == "rsync"@,
{
    reveal_strlit(" failed with status ");
    reveal_strlit(" failed with status None");
    reveal_strlit("None");
    reveal_strlit("wsl rsync");
    reveal_strlit("rsync");
    assert("wsl rsync"@.len() == 9 && "rsync"@.len() == 5);
    let a = label@ + " failed with status "@;
    let b = label@ + " failed with status None"@;
    assert(s@.subrange(0, a.len() as int) =~= a);
    if code is None {
        assert(" failed with status None"@ =~= " failed with status "@ + "None"@);
        assert(s@.subrange(0, b.len() as int) =~= b);
    }
}

} // verus!
