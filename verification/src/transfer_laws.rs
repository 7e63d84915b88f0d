//! What the commands that copy files say: where the files come from, where they
//! go, by which port, and what becomes of files that are already there.

use vstd::prelude::*;
use vstd::string::*;

use crate::number::{NumberError, decimal, decimal_int, decimal_is_injective, parse_undoes_decimal};
use crate::number::parsed;
use crate::policy::ConflictPolicy;
use crate::remote::{RemoteClient, bare_path, code_text, drive_place, is_parent, mirror_line};
use crate::remote::{mirror_words, normalized, on_host, output_text, path_command, remote_place};
use crate::remote::{ssh_option, unsupported_path, without_prefix, wsl_place};
use crate::remote_laws::mirror_line_is_one_command;
use crate::shell::shell_words;
use crate::text::{flagged, is_space, lemma_flagged_index, lemma_flagged_len, lower_char, replaced};
use crate::text_laws::{all_blank, characters_keep_their_places, every_occurrence_is_replaced};
use crate::text_laws::{negative_numbers_have_a_sign, other_text_is_not_replaced};
use crate::text_laws::{text_is_replaced_part_by_part, trimming_ignores_whitespace_around};
use crate::watcher::{move_line, move_words, slashed_path, sync_words};
use crate::watcher_laws::move_line_is_one_command;

verus! {

/// Whether a command reaches the other machine through the port: behind the
/// option `-e` it is told to run `ssh` with that port, in decimal notation.
pub open spec fn goes_through_port(words: Seq<Seq<char>>, port: nat) -> bool {
    exists|i: int|
        #![trigger words[i]]
        0 <= i && i + 1 < words.len() && words[i] == "-e"@ && "ssh -p "@.is_prefix_of(words[i + 1])
            && parsed(words[i + 1].skip(7), 65535) == Ok::<nat, NumberError>(port)
}

/// The option for `ssh` holds the number of the port behind `-p`.
pub proof fn port_option_reads_back(port: nat)
    requires
        port <= 65535,
    ensures
        "ssh -p "@.is_prefix_of(ssh_option(port)),
        ssh_option(port).skip(7) == decimal(port),
        parsed(ssh_option(port).skip(7), 65535) == Ok::<nat, NumberError>(port),
{
    reveal_strlit("ssh -p ");
    assert("ssh -p "@.len() == 7);
    let s = ssh_option(port);
    assert(s.subrange(0, 7) =~= "ssh -p "@);
    assert(s.skip(7) =~= decimal(port));
    parse_undoes_decimal(port, 65535);
}

/// The command that mirrors a folder, and the one that sends a file, reach the
/// other machine through the port that is given, whether they are run at once
/// or through a shell.
pub proof fn transfers_go_through_the_port(
    src: Seq<char>,
    remote: Seq<char>,
    dest: Seq<char>,
    port: nat,
)
    requires
        port <= 65535,
    ensures
        goes_through_port(mirror_words(src, remote, dest, port), port),
        goes_through_port(move_words(src, remote, dest, port), port),
        shell_words(mirror_line(src, remote, dest, port)) matches Some(words) && goes_through_port(
            words,
            port,
        ),
        shell_words(move_line(src, remote, dest, port)) matches Some(words) && goes_through_port(
            words,
            port,
        ),
{
    port_option_reads_back(port);
    mirror_line_is_one_command(src, remote, dest, port);
    move_line_is_one_command(src, remote, dest, port);
    let a = mirror_words(src, remote, dest, port);
    let b = move_words(src, remote, dest, port);
    assert(a[3] == "-e"@ && a[4] == ssh_option(port));
    assert(b[2] == "-e"@ && b[3] == ssh_option(port));
}

/// Transfers that differ in the port are different commands, at once and through
/// a shell.
pub proof fn different_ports_are_different_transfers(
    src: Seq<char>,
    remote: Seq<char>,
    dest: Seq<char>,
    port: nat,
    other: nat,
)
    requires
        port != other,
    ensures
        mirror_words(src, remote, dest, port) != mirror_words(src, remote, dest, other),
        mirror_line(src, remote, dest, port) != mirror_line(src, remote, dest, other),
        move_words(src, remote, dest, port) != move_words(src, remote, dest, other),
        move_line(src, remote, dest, port) != move_line(src, remote, dest, other),
{
    reveal_strlit("ssh -p ");
    let (o, p) = (ssh_option(port), ssh_option(other));
    assert(o.skip(7) =~= decimal(port) && p.skip(7) =~= decimal(other));
    if decimal(port) == decimal(other) {
        decimal_is_injective(port, other);
    }
    assert(o != p);
    let (a, b) = (mirror_words(src, remote, dest, port), mirror_words(src, remote, dest, other));
    assert(a[4] == o && b[4] == p);
    let (c, d) = (move_words(src, remote, dest, port), move_words(src, remote, dest, other));
    assert(c[3] == o && d[3] == p);
    mirror_line_is_one_command(src, remote, dest, port);
    mirror_line_is_one_command(src, remote, dest, other);
    move_line_is_one_command(src, remote, dest, port);
    move_line_is_one_command(src, remote, dest, other);
}

/// A mirror brings what is in the folder, with all that is in it and packed on
/// the way, to what is at the destination on the machine, and deletes there what
/// is not in the folder. The two paths are the last words of the command, each
/// with a slash at its end.
pub proof fn mirror_brings_the_folder_to_the_machine(
    src: Seq<char>,
    remote: Seq<char>,
    dest: Seq<char>,
    port: nat,
)
    ensures
        ({
            let words = mirror_words(src, remote, dest, port);
            let n = words.len() as int;
            &&& n == 7
            &&& words[0] == "rsync"@
            &&& words.contains("-az"@)
            &&& words.contains("--delete"@)
            &&& words[n - 2] == src.push('/')
            &&& words[n - 1] == remote.push(':') + dest.push('/')
            &&& shell_words(mirror_line(src, remote, dest, port)) == Some(words)
        }),
{
    reveal_strlit("/");
    reveal_strlit(":");
    mirror_line_is_one_command(src, remote, dest, port);
    let words = mirror_words(src, remote, dest, port);
    assert(words[1] == "-az"@ && words[2] == "--delete"@);
    assert(src + "/"@ =~= src.push('/'));
    assert(remote + ":"@ + dest + "/"@ =~= remote.push(':') + dest.push('/'));
}

/// Sending a file brings that file into the directory on the machine, and
/// deletes nothing there.
pub proof fn sending_brings_the_file_to_the_machine(
    src: Seq<char>,
    remote: Seq<char>,
    dest: Seq<char>,
    port: nat,
)
    ensures
        ({
            let words = move_words(src, remote, dest, port);
            let n = words.len() as int;
            &&& n == 6
            &&& words[0] == "rsync"@
            &&& words.contains("-az"@)
            &&& words[n - 2] == src
            &&& words[n - 1] == remote.push(':') + dest.push('/')
            &&& forall|i: int| 0 <= i < n - 2 ==> #[trigger] words[i] != "--delete"@
            &&& shell_words(move_line(src, remote, dest, port)) == Some(words)
        }),
{
    reveal_strlit("/");
    reveal_strlit(":");
    reveal_strlit("rsync");
    reveal_strlit("-az");
    reveal_strlit("-e");
    reveal_strlit("ssh -p ");
    reveal_strlit("--delete");
    move_line_is_one_command(src, remote, dest, port);
    let words = move_words(src, remote, dest, port);
    assert(words[1] == "-az"@);
    assert("--delete"@.len() == 8 && "--delete"@[0] == '-');
    assert("rsync"@.len() == 5 && "-az"@.len() == 3 && "-e"@.len() == 2);
    assert(words[3][0] == 's');
    assert(remote + ":"@ + dest + "/"@ =~= remote.push(':') + dest.push('/'));
}

/// Copying a folder here leaves the files alone that are already there if and
/// only if the policy is to skip them, and otherwise deletes from the copy what
/// is not in the folder; which of the other policies it is makes no difference.
pub proof fn local_mirror_follows_the_policy(
    src: Seq<char>,
    dest: Seq<char>,
    conflict: ConflictPolicy,
    other: ConflictPolicy,
    included: Seq<Seq<char>>,
    excluded: Seq<Seq<char>>,
)
    ensures
        ({
            let words = sync_words(src, dest, conflict, included, excluded);
            &&& words[2] == "--ignore-existing"@ <==> conflict == ConflictPolicy::Skip
            &&& words[2] == "--delete"@ <==> conflict != ConflictPolicy::Skip
            &&& words == sync_words(src, dest, other, included, excluded) <==> (conflict
                == ConflictPolicy::Skip <==> other == ConflictPolicy::Skip)
        }),
{
    reveal_strlit("--ignore-existing");
    reveal_strlit("--delete");
    assert("--ignore-existing"@.len() == 17 && "--delete"@.len() == 8);
    let words = sync_words(src, dest, conflict, included, excluded);
    let others = sync_words(src, dest, other, included, excluded);
    assert(others[2] == "--delete"@ || others[2] == "--ignore-existing"@);
}

/// A command that copies a folder here says `--ignore-existing` among its
/// options if and only if the policy is to skip, and `--delete` if and only if
/// it is not, unless a pattern or a path is spelled so.
pub proof fn local_mirror_says_one_mode(
    src: Seq<char>,
    dest: Seq<char>,
    conflict: ConflictPolicy,
)
    ensures
        ({
            let words = sync_words(src, dest, conflict, seq![], seq![]);
            &&& words.len() == 5
            &&& words[3] != "--delete"@ && words[3] != "--ignore-existing"@
            &&& words[4] != "--delete"@ && words[4] != "--ignore-existing"@
            &&& words.contains("--ignore-existing"@) <==> conflict == ConflictPolicy::Skip
            &&& words.contains("--delete"@) <==> conflict != ConflictPolicy::Skip
        }),
{
    reveal_strlit("--ignore-existing");
    reveal_strlit("--delete");
    reveal_strlit("rsync");
    reveal_strlit("-a");
    reveal_strlit("/");
    assert("--ignore-existing"@.len() == 17 && "--delete"@.len() == 8);
    assert("--ignore-existing"@[16] == 'g' && "--delete"@[7] == 'e');
    assert("rsync"@.len() == 5 && "-a"@.len() == 2);
    let words = sync_words(src, dest, conflict, seq![], seq![]);
    assert(words.len() == 5);
    assert(words[3] == replaced(src, '\\', "/"@) + "/"@);
    assert(words[4] == replaced(dest, '\\', "/"@) + "/"@);
    assert(words[3].last() == '/' && words[4].last() == '/');
    assert(words[2] == "--ignore-existing"@ || words[2] == "--delete"@);
    assert(words.contains(words[2]));
}

/// Copying a folder here names every pattern that was given, in order, behind
/// the option for those that are taken along or for those that are left out,
/// and then the folder and its copy, each with a slash at its end and with
/// slashes for backslashes.
pub proof fn local_mirror_names_patterns_and_paths(
    src: Seq<char>,
    dest: Seq<char>,
    conflict: ConflictPolicy,
    included: Seq<Seq<char>>,
    excluded: Seq<Seq<char>>,
    i: int,
)
    ensures
        ({
            let words = sync_words(src, dest, conflict, included, excluded);
            let n = words.len() as int;
            let e = 3 + 2 * included.len();
            &&& n == 5 + 2 * included.len() + 2 * excluded.len()
            &&& words[0] == "rsync"@
            &&& words[1] == "-a"@
            &&& 0 <= i < included.len() ==> words[3 + 2 * i] == "--include"@ && words[4 + 2 * i]
                == included[i]
            &&& 0 <= i < excluded.len() ==> words[e + 2 * i] == "--exclude"@ && words[e + 1 + 2 * i]
                == excluded[i]
            &&& words[n - 2].len() == src.len() + 1 && words[n - 2].last() == '/'
            &&& words[n - 1].len() == dest.len() + 1 && words[n - 1].last() == '/'
            &&& 0 <= i < src.len() ==> words[n - 2][i] == if src[i] == '\\' {
                '/'
            } else {
                src[i]
            }
            &&& 0 <= i < dest.len() ==> words[n - 1][i] == if dest[i] == '\\' {
                '/'
            } else {
                dest[i]
            }
        }),
{
    reveal_strlit("/");
    assert("/"@ =~= seq!['/']);
    lemma_flagged_len("--include"@, included);
    lemma_flagged_len("--exclude"@, excluded);
    let words = sync_words(src, dest, conflict, included, excluded);
    let f = flagged("--include"@, included);
    let g = flagged("--exclude"@, excluded);
    let n = words.len() as int;
    if 0 <= i < included.len() {
        lemma_flagged_index("--include"@, included, i);
        assert(words[3 + 2 * i] == f[2 * i]);
        assert(words[4 + 2 * i] == f[2 * i + 1]);
    }
    if 0 <= i < excluded.len() {
        lemma_flagged_index("--exclude"@, excluded, i);
        assert(words[3 + f.len() + 2 * i] == g[2 * i]);
        assert(words[3 + f.len() + 2 * i + 1] == g[2 * i + 1]);
    }
    characters_keep_their_places(src, '\\', '/');
    characters_keep_their_places(dest, '\\', '/');
    assert(words[n - 2] == replaced(src, '\\', "/"@) + "/"@);
    assert(words[n - 1] == replaced(dest, '\\', "/"@) + "/"@);
}

/// The words that `ssh` and `scp` are given name the port, which reads back
/// from them, and the machine.
pub proof fn commands_reach_the_machine(client: RemoteClient, text: Seq<char>, dest: Seq<char>)
    ensures
        ({
            let words = client.ssh_words(text);
            &&& words.len() == 5
            &&& words[0] == "ssh"@
            &&& words[1] == "-p"@
            &&& parsed(words[2], 65535) == Ok::<nat, NumberError>(client.port as nat)
            &&& words[3] == client.user_host@
            &&& words[4] == text
        }),
        ({
            let words = client.copy_all_words(text, dest);
            &&& words.len() == 6
            &&& words[0] == "scp"@
            &&& words[1] == "-r"@
            &&& words[2] == "-P"@
            &&& parsed(words[3], 65535) == Ok::<nat, NumberError>(client.port as nat)
            &&& words[4] == text
            &&& words[5] == client.user_host@.push(':') + dest
        }),
        on_host(client.user_host@, dest) == client.user_host@.push(':') + dest,
{
    reveal_strlit(":");
    parse_undoes_decimal(client.port as nat, 65535);
    assert(client.user_host@ + ":"@ + dest =~= client.user_host@.push(':') + dest);
}

/// A command for the other side is the command and the path between double
/// quotes.
pub proof fn path_is_quoted(command: Seq<char>, path: Seq<char>)
    ensures
        path_command(command, path) == command + seq![' ', '"'] + path.push('"'),
{
    reveal_strlit(" \"");
    reveal_strlit("\"");
    assert(path_command(command, path) =~= command + seq![' ', '"'] + path.push('"'));
}

/// A destination below the home directory is one below the directory that a
/// session starts in, and the home directory is that directory itself; any
/// other destination stays as it is.
pub proof fn home_is_where_a_session_starts(dest: Seq<char>)
    ensures
        normalized(seq!['~', '/'] + dest) == seq!['.', '/'] + dest,
        normalized(seq!['~']) == seq!['.'],
        dest.len() == 0 || dest[0] != '~' ==> normalized(dest) == dest,
        dest.len() >= 2 && dest[1] != '/' ==> normalized(dest) == dest,
{
    reveal_strlit("~/");
    reveal_strlit("./");
    reveal_strlit("~");
    reveal_strlit(".");
    assert("~/"@ =~= seq!['~', '/'] && "./"@ =~= seq!['.', '/']);
    assert("~"@ =~= seq!['~'] && "."@ =~= seq!['.']);
    let d = seq!['~', '/'] + dest;
    assert(d.subrange(0, 2) =~= "~/"@);
    assert(d.skip(2) =~= dest);
    if "~/"@.is_prefix_of(dest) {
        assert(dest.subrange(0, 2)[0] == '~' && dest.subrange(0, 2)[1] == '/');
    }
}

/// What is at a path in the folder has its place under the copy, at the same
/// path with slashes.
pub proof fn places_mirror_the_folder(dest: Seq<char>, relative: Seq<char>, i: int)
    ensures
        ({
            let place = remote_place(dest, relative);
            &&& place.len() == dest.len() + 1 + relative.len()
            &&& place.take(dest.len() as int) == dest
            &&& place[dest.len() as int] == '/'
            &&& 0 <= i < relative.len() ==> place[dest.len() + 1 + i] == if relative[i] == '\\' {
                '/'
            } else {
                relative[i]
            }
        }),
{
    reveal_strlit("/");
    assert("/"@ =~= seq!['/']);
    characters_keep_their_places(relative, '\\', '/');
    assert(remote_place(dest, relative).take(dest.len() as int) =~= dest);
}

/// The directory that a file lies in is all of its path before its name.
pub proof fn file_lies_in_its_directory(dir: Seq<char>, name: Seq<char>, parent: Seq<char>)
    requires
        !name.contains('/'),
    ensures
        is_parent(dir.push('/') + name, parent) <==> parent == dir,
{
    let path = dir.push('/') + name;
    let n = dir.len() as int;
    assert(path.take(n) =~= dir);
    assert(path.skip(n + 1) =~= name);
    if is_parent(path, parent) {
        let m = parent.len() as int;
        if m > n {
            assert(path[m] == name[m - n - 1]);
            assert(name.contains(name[m - n - 1]));
        } else if m < n {
            assert(path.skip(m + 1)[n - m - 1] == '/');
            assert(path.skip(m + 1).contains('/'));
        }
    }
}

/// A prefix is taken off a text that begins with it, and off no other.
pub proof fn prefix_is_taken_off(prefix: Seq<char>, s: Seq<char>)
    ensures
        without_prefix(prefix + s, prefix) == s,
        !prefix.is_prefix_of(s) ==> without_prefix(s, prefix) == s,
{
    assert((prefix + s).subrange(0, prefix.len() as int) =~= prefix);
    assert((prefix + s).skip(prefix.len() as int) =~= s);
}

/// A path on a drive is found below the directory for mounted drives, under the
/// letter of the drive in lower case; a path that does not begin with a drive
/// and a slash is not found.
pub proof fn drives_are_mounted_by_letter(c: char, rest: Seq<char>, path: Seq<char>)
    ensures
        c <= '\u{7f}' ==> drive_place(seq![c, ':', '/'] + rest) == Some(
            seq!['/', 'm', 'n', 't', '/', lower_char(c), '/'] + rest,
        ),
        c > '\u{7f}' ==> drive_place(seq![c, ':', '/'] + rest) is None,
        drive_place(path) is Some ==> path.len() >= 3 && path[1] == ':' && path[2] == '/',
{
    reveal_strlit("/mnt/");
    reveal_strlit("/");
    let p = seq![c, ':', '/'] + rest;
    assert(p.skip(3) =~= rest);
    assert("/mnt/"@.push(lower_char(c)) + "/"@ + rest =~= seq![
        '/',
        'm',
        'n',
        't',
        '/',
        lower_char(c),
        '/',
    ] + rest);
}

/// A folder is found from inside the Linux subsystem whether its path is
/// written with slashes or backslashes, and whether or not it is marked as taken
/// literally.
pub proof fn spelling_of_windows_paths_does_not_matter(c: char, rest: Seq<char>)
    requires
        'A' <= c <= 'Z' || 'a' <= c <= 'z',
    ensures
        ({
            let plain = seq![c, ':', '\\'] + rest;
            let place = wsl_place(plain);
            &&& place matches Some(p) && p == seq!['/', 'm', 'n', 't', '/', lower_char(c), '/']
                + replaced(rest, '\\', seq!['/'])
            &&& wsl_place(seq![c, ':', '/'] + rest) == place
            &&& wsl_place(seq!['\\', '\\', '?', '\\'] + plain) == place
            &&& wsl_place(seq!['/', '/', '?', '/'] + plain) == place
            &&& slashed_path(plain) == seq![c, ':', '/'] + replaced(rest, '\\', seq!['/'])
            &&& slashed_path(seq!['\\', '\\', '?', '\\'] + plain) == slashed_path(plain)
        }),
{
    reveal_strlit("\\\\?\\");
    reveal_strlit("//?/");
    reveal_strlit("/");
    assert("/"@ =~= seq!['/']);
    let lit = seq!['\\', '\\', '?', '\\'];
    let lit2 = seq!['/', '/', '?', '/'];
    assert("\\\\?\\"@ =~= lit && "//?/"@ =~= lit2);
    let plain = seq![c, ':', '\\'] + rest;
    let other = seq![c, ':', '/'] + rest;
    assert(plain[0] == c && other[0] == c);
    assert(lit.is_prefix_of(plain) ==> plain.subrange(0, 4)[0] == '\\');
    assert(lit2.is_prefix_of(plain) ==> plain.subrange(0, 4)[0] == '/');
    assert(lit.is_prefix_of(other) ==> other.subrange(0, 4)[0] == '\\');
    assert(lit2.is_prefix_of(other) ==> other.subrange(0, 4)[0] == '/');
    assert(lit.is_prefix_of(lit2 + plain) ==> (lit2 + plain).subrange(0, 4)[0] == '\\');
    prefix_is_taken_off(lit, plain);
    prefix_is_taken_off(lit, other);
    prefix_is_taken_off(lit2, plain);
    prefix_is_taken_off(lit2, other);
    prefix_is_taken_off(lit, lit2 + plain);
    assert(bare_path(plain) == plain && bare_path(other) == other);
    assert(bare_path(lit + plain) == plain && bare_path(lit2 + plain) == plain);
    let tail = replaced(rest, '\\', seq!['/']);
    assert(plain =~= seq![c, ':'].push('\\') + rest);
    every_occurrence_is_replaced(seq![c, ':'], rest, '\\', seq!['/']);
    assert(!seq![c, ':'].contains('\\'));
    other_text_is_not_replaced(seq![c, ':'], '\\', seq!['/']);
    text_is_replaced_part_by_part(seq![c, ':', '/'], rest, '\\', seq!['/']);
    assert(!seq![c, ':', '/'].contains('\\'));
    other_text_is_not_replaced(seq![c, ':', '/'], '\\', seq!['/']);
    let raw = seq![c, ':', '/'] + tail;
    assert(seq![c, ':'] + seq!['/'] + tail =~= raw);
    drives_are_mounted_by_letter(c, tail, raw);
}

/// The message about a path that is not found names the path.
pub proof fn unsupported_paths_are_named(path: Seq<char>)
    ensures
        path.is_suffix_of(unsupported_path(path)),
        "Unsupported Windows path"@.is_prefix_of(unsupported_path(path)),
{
    reveal_strlit("Unsupported Windows path for WSL rsync: ");
    reveal_strlit("Unsupported Windows path");
    let m = unsupported_path(path);
    assert("Unsupported Windows path for WSL rsync: "@.len() == 40);
    assert("Unsupported Windows path"@.len() == 24);
    assert(m.subrange(m.len() - path.len(), m.len() as int) =~= path);
    assert(m.subrange(0, 24) =~= "Unsupported Windows path"@);
}

/// Of what a command put out, the message shows all but the whitespace around
/// it, and says so if there is nothing else.
pub proof fn output_is_shown(before: Seq<char>, output: Seq<char>, behind: Seq<char>)
    requires
        all_blank(before),
        all_blank(behind),
        output.len() > 0 ==> !is_space(output[0]) && !is_space(
            output.last(),
        ),
    ensures
        output.len() > 0 ==> output_text(before + output + behind) == output,
        output.len() == 0 ==> output_text(before + output + behind) == "<empty>"@,
{
    trimming_ignores_whitespace_around(before, output, behind);
}

/// The exit code of a command is shown by its number, or said to be missing; no
/// two codes look the same.
pub proof fn exit_codes_are_shown(a: i32, b: i32)
    ensures
        code_text(Some(a)) == code_text(Some(b)) <==> a == b,
        code_text(Some(a)) == "Some("@ + decimal_int(a as int) + ")"@,
        code_text(None) == "None"@,
{
    reveal_strlit("Some(");
    reveal_strlit(")");
    reveal_strlit("-");
    let (x, y) = (decimal_int(a as int), decimal_int(b as int));
    let (s, t) = (code_text(Some(a)), code_text(Some(b)));
    assert(s.subrange(5, s.len() - 1) =~= x);
    assert(t.subrange(5, t.len() - 1) =~= y);
    if s == t && a != b {
        negative_numbers_have_a_sign(a as int);
        negative_numbers_have_a_sign(b as int);
        let m: nat = if a < 0 {
            (-a) as nat
        } else {
            a as nat
        };
        let n: nat = if b < 0 {
            (-b) as nat
        } else {
            b as nat
        };
        assert(a < 0 ==> x.skip(1) =~= decimal(m));
        assert(b < 0 ==> y.skip(1) =~= decimal(n));
        assert(a < 0 ==> x[0] == '-');
        assert(b < 0 ==> y[0] == '-');
        decimal_is_injective(m, n);
    }
}

} // verus!
