//! Laws of mirroring to another machine.

use vstd::prelude::*;
use vstd::string::*;

use crate::number::{decimal, is_digit};
use crate::number::decimal_reads_back;
use crate::remote::{bare_path, drive_place, is_parent, mirror_line, mirror_words, normalized};
use crate::remote::{path_command, remote_place, ssh_option, wsl_place};
use crate::shell::{Quote, Reading, between, is_bare_word, is_weak, quoting, read_on, shell_words};
use crate::shell::single_quoted;
use crate::shell::{lemma_next_quoted, lemma_open_quote, lemma_read_one, lemma_read_parts};
use crate::shell::{lemma_read_quoted, lemma_read_text, lemma_read_word};
use crate::text::{lemma_assoc, lemma_replaced_is_free};
use crate::text::{lower_char, replaced};

verus! {

/// Leaving the home directory to the session a second time changes nothing.
pub proof fn normalizing_is_idempotent(dest: Seq<char>)
    ensures
        normalized(normalized(dest)) == normalized(dest),
{
    reveal_strlit("~/");
    reveal_strlit("./");
    reveal_strlit("~");
    reveal_strlit(".");
    let n = normalized(dest);
    if "~/"@.is_prefix_of(dest) || dest == "~"@ {
        assert(n[0] == '.');
        assert("~/"@[0] == '~' && "~"@[0] == '~');
        if "~/"@.is_prefix_of(n) {
            assert(n[0] == n.subrange(0, 2)[0]);
        }
    }
}

/// What lies under a folder lands under its copy: whatever is made on the
/// other side for a path in the folder has the path of the copy before it.
pub proof fn places_stay_inside(dest: Seq<char>, relative: Seq<char>, parent: Seq<char>)
    ensures
        dest.is_prefix_of(remote_place(dest, relative)),
        is_parent(remote_place(dest, relative), parent) ==> dest.is_prefix_of(parent),
{
    reveal_strlit("/");
    let place = remote_place(dest, relative);
    assert(place.subrange(0, dest.len() as int) =~= dest);
    if is_parent(place, parent) {
        assert(place[dest.len() as int] == '/');
        if parent.len() < dest.len() {
            let tail = place.skip(parent.len() as int + 1);
            assert(tail[dest.len() - parent.len() - 1] == '/');
            assert(tail.contains('/'));
        }
        assert(parent.subrange(0, dest.len() as int) =~= dest);
    }
}

/// A path that is found from inside the Linux subsystem has no backslash there.
pub proof fn wsl_places_have_no_backslash(path: Seq<char>)
    ensures
        wsl_place(path) matches Some(place) ==> !place.contains('\\'),
{
    reveal_strlit("/");
    let raw = replaced(bare_path(path), '\\', "/"@);
    lemma_replaced_is_free(bare_path(path), '\\', "/"@);
    lemma_drive_places_have_no_backslash(raw);
}

/// A path without a backslash keeps none on its way into the Linux subsystem.
pub proof fn lemma_drive_places_have_no_backslash(raw: Seq<char>)
    requires
        !raw.contains('\\'),
    ensures
        drive_place(raw) matches Some(place) ==> !place.contains('\\'),
{
    reveal_strlit("/");
    reveal_strlit("/mnt/");
    if let Some(place) = drive_place(raw) {
        let c = lower_char(raw[0]);
        assert(raw.contains(raw[0]));
        assert(c != '\\');
        assert forall|i: int| 0 <= i < place.len() implies place[i] != '\\' by {
            if i >= 7 {
                assert(place[i] == raw[i - 4]);
                assert(raw.contains(raw[i - 4]));
            }
        }
    }
}

/// The line that removes a path on the other side, and the one that makes a
/// directory there, name that path and no other, unless it holds a character
/// that a shell treats on its own between double quotes.
pub proof fn path_commands_name_the_path(path: Seq<char>)
    requires
        forall|i: int| 0 <= i < path.len() ==> is_weak(#[trigger] path[i]),
    ensures
        shell_words(path_command("rm -rf"@, path)) == Some(seq!["rm"@, "-rf"@, path]),
        shell_words(path_command("mkdir -p"@, path)) == Some(seq!["mkdir"@, "-p"@, path]),
{
    reveal_strlit("rm -rf");
    reveal_strlit("rm");
    reveal_strlit("-rf");
    reveal_strlit("mkdir -p");
    reveal_strlit("mkdir");
    reveal_strlit("-p");
    reveal_strlit(" \"");
    assert("rm -rf"@ + " \""@ =~= ("rm"@ + seq![' ']) + (("-rf"@ + seq![' ']) + seq!['"']));
    assert("mkdir -p"@ + " \""@ =~= ("mkdir"@ + seq![' ']) + (("-p"@ + seq![' ']) + seq!['"']));
    lemma_path_command("rm -rf"@, "rm"@, "-rf"@, path);
    lemma_path_command("mkdir -p"@, "mkdir"@, "-p"@, path);
}

proof fn lemma_path_command(
    command: Seq<char>,
    program: Seq<char>,
    option: Seq<char>,
    path: Seq<char>,
)
    requires
        is_bare_word(program),
        is_bare_word(option),
        command + " \""@ == (program + seq![' ']) + ((option + seq![' ']) + seq!['"']),
        forall|i: int| 0 <= i < path.len() ==> is_weak(#[trigger] path[i]),
    ensures
        shell_words(path_command(command, path)) == Some(seq![program, option, path]),
{
    reveal_strlit("\"");
    assert("\""@ =~= seq!['"']);
    let start = between(seq![]);
    let done = seq![program, option];
    assert(Seq::<Seq<char>>::empty().push(program).push(option) =~= done);
    lemma_read_word(seq![], program);
    lemma_read_word(seq![].push(program), option);
    lemma_read_one(between(done), '"');
    let opened = Reading { done, word: Some(seq![]), quote: Quote::Double };
    let read = Reading { done, word: Some(path), quote: Quote::Double };
    lemma_read_parts(
        Some(start),
        program + seq![' '],
        (option + seq![' ']) + seq!['"'],
    );
    lemma_read_parts(Some(between(seq![].push(program))), option + seq![' '], seq!['"']);
    lemma_read_text(opened, path);
    assert(Seq::<char>::empty() + path =~= path);
    lemma_read_parts(Some(start), command + " \""@, path);
    lemma_read_one(read, '"');
    lemma_read_parts(Some(start), command + " \""@ + path, seq!['"']);
    assert(done.push(path) =~= seq![program, option, path]);
}

/// What a shell reads behind the words of a transfer up to the port.
pub proof fn lemma_read_transfer(
    done: Seq<Seq<char>>,
    port: nat,
    src: Seq<char>,
    slash: Seq<char>,
    remote: Seq<char>,
    dest: Seq<char>,
)
    requires
        !slash.contains('\''),
    ensures
        read_on(
            Some(quoting(done, "ssh -p "@)),
            decimal(port) + "' '"@ + single_quoted(src) + (slash + "' '"@) + single_quoted(remote)
                + ":"@ + single_quoted(dest) + "/'"@,
        ) == Some(
            Reading {
                done: done.push(ssh_option(port)).push(src + slash),
                word: Some(remote + ":"@ + dest + "/"@),
                quote: Quote::Bare,
            },
        ),
{
    reveal_strlit("' '");
    reveal_strlit(":");
    reveal_strlit("/'");
    reveal_strlit("/");
    let next = seq!['\'', ' ', '\''];
    assert("' '"@ =~= next);
    assert("/'"@ =~= "/"@ + seq!['\'']);
    let none = Seq::<char>::empty();
    let start = Some(quoting(done, "ssh -p "@));
    let done1 = done.push(ssh_option(port));
    let done2 = done1.push(src + slash);

    decimal_reads_back(port);
    assert(forall|i: int| 0 <= i < decimal(port).len() ==> is_digit(#[trigger] decimal(port)[i]));
    assert(!decimal(port).contains('\''));
    lemma_read_text(quoting(done, "ssh -p "@), decimal(port));
    let t1 = decimal(port);

    lemma_next_quoted(done, ssh_option(port));
    lemma_read_parts(start, t1, "' '"@);
    let t2 = t1 + "' '"@;

    lemma_read_quoted(quoting(done1, none), src);
    assert(none + src =~= src);
    lemma_read_parts(start, t2, single_quoted(src));
    let t3 = t2 + single_quoted(src);

    lemma_read_text(quoting(done1, src), slash);
    lemma_next_quoted(done1, src + slash);
    lemma_read_parts(Some(quoting(done1, src)), slash, "' '"@);
    lemma_read_parts(start, t3, slash + "' '"@);
    let t4 = t3 + (slash + "' '"@);

    lemma_read_quoted(quoting(done2, none), remote);
    assert(none + remote =~= remote);
    lemma_read_parts(start, t4, single_quoted(remote));
    let t5 = t4 + single_quoted(remote);

    assert(!":"@.contains('\''));
    lemma_read_text(quoting(done2, remote), ":"@);
    lemma_read_parts(start, t5, ":"@);
    let t6 = t5 + ":"@;

    lemma_read_quoted(quoting(done2, remote + ":"@), dest);
    lemma_read_parts(start, t6, single_quoted(dest));
    let t7 = t6 + single_quoted(dest);

    assert(!"/"@.contains('\''));
    let last = quoting(done2, remote + ":"@ + dest);
    lemma_read_text(last, "/"@);
    lemma_read_one(quoting(done2, remote + ":"@ + dest + "/"@), '\'');
    lemma_read_parts(Some(last), "/"@, seq!['\'']);
    lemma_read_parts(start, t7, "/'"@);
}

/// The line that mirrors a folder through a shell runs `rsync` with the same
/// words as the command that needs no shell, whatever characters the folder,
/// the machine and the destination hold.
pub proof fn mirror_line_is_one_command(
    src: Seq<char>,
    remote: Seq<char>,
    dest: Seq<char>,
    port: nat,
)
    ensures
        shell_words(mirror_line(src, remote, dest, port)) == Some(
            mirror_words(src, remote, dest, port),
        ),
{
    reveal_strlit("rsync -az --delete -e 'ssh -p ");
    reveal_strlit("rsync");
    reveal_strlit("-az");
    reveal_strlit("--delete");
    reveal_strlit("-e");
    reveal_strlit("ssh -p ");
    reveal_strlit("/' '");
    reveal_strlit("' '");
    reveal_strlit("/");
    let head = "rsync -az --delete -e 'ssh -p "@;
    let b = seq![' '];
    let w1 = "rsync"@ + b;
    let w2 = "-az"@ + b;
    let w3 = "--delete"@ + b;
    let w4 = "-e"@ + b;
    let q = seq!['\''];
    assert(head =~= w1 + (w2 + (w3 + (w4 + (q + "ssh -p "@)))));
    let d1 = seq!["rsync"@];
    let d2 = seq!["rsync"@, "-az"@];
    let d3 = seq!["rsync"@, "-az"@, "--delete"@];
    let d4 = seq!["rsync"@, "-az"@, "--delete"@, "-e"@];
    let d0 = Seq::<Seq<char>>::empty();
    assert(d0.push("rsync"@) =~= d1 && d1.push("-az"@) =~= d2 && d2.push("--delete"@) =~= d3
        && d3.push("-e"@) =~= d4);
    lemma_read_word(d0, "rsync"@);
    lemma_read_word(d1, "-az"@);
    lemma_read_word(d2, "--delete"@);
    lemma_read_word(d3, "-e"@);
    lemma_open_quote(d4);
    assert(!"ssh -p "@.contains('\''));
    lemma_read_text(quoting(d4, seq![]), "ssh -p "@);
    assert(Seq::<char>::empty() + "ssh -p "@ =~= "ssh -p "@);
    lemma_read_parts(Some(between(d4)), q, "ssh -p "@);
    lemma_read_parts(Some(between(d3)), w4, q + "ssh -p "@);
    lemma_read_parts(Some(between(d2)), w3, w4 + (q + "ssh -p "@));
    lemma_read_parts(Some(between(d1)), w2, w3 + (w4 + (q + "ssh -p "@)));
    lemma_read_parts(Some(between(d0)), w1, w2 + (w3 + (w4 + (q + "ssh -p "@))));
    assert(read_on(Some(between(d0)), head) == Some(quoting(d4, "ssh -p "@)));

    assert("/' '"@ =~= "/"@ + "' '"@);
    assert(!"/"@.contains('\''));
    lemma_read_transfer(d4, port, src, "/"@, remote, dest);
    let rest = decimal(port) + "' '"@ + single_quoted(src) + ("/"@ + "' '"@) + single_quoted(remote)
        + ":"@ + single_quoted(dest) + "/'"@;
    lemma_read_parts(Some(between(d0)), head, rest);
    lemma_chain(
        head,
        decimal(port),
        "' '"@,
        single_quoted(src),
        "/' '"@,
        single_quoted(remote),
        ":"@,
        single_quoted(dest),
        "/'"@,
    );
    assert(d4.push(ssh_option(port)).push(src + "/"@).push(remote + ":"@ + dest + "/"@)
        =~= mirror_words(src, remote, dest, port));
}

/// A text made of a head and eight parts is the head and the text of the rest.
pub proof fn lemma_chain(
    head: Seq<char>,
    a: Seq<char>,
    b: Seq<char>,
    c: Seq<char>,
    d: Seq<char>,
    e: Seq<char>,
    f: Seq<char>,
    g: Seq<char>,
    h: Seq<char>,
)
    ensures
        head + a + b + c + d + e + f + g + h == head + (a + b + c + d + e + f + g + h),
{
    lemma_assoc(head, a, b);
    lemma_assoc(head, a + b, c);
    lemma_assoc(head, a + b + c, d);
    lemma_assoc(head, a + b + c + d, e);
    lemma_assoc(head, a + b + c + d + e, f);
    lemma_assoc(head, a + b + c + d + e + f, g);
    lemma_assoc(head, a + b + c + d + e + f + g, h);
}

} // verus!
