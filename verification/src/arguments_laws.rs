//! The command line of a daemon says its task.

use vstd::prelude::*;

use crate::arguments::{Arguments, lemma_read_one, lemma_read_option, lemma_read_parts};
use crate::arguments::{command_line, is_flag, is_plain, is_value, nothing_read, read_words, says};
use crate::arguments::{lemma_values_parts, says_number, says_policy, takes_value, values};
use crate::commands::{Commands, DaemonJob};
use crate::commands::{age_fits, flag_args, is_job, option_args, port_or_default, remote_args};
use crate::commands::task_args;
use crate::daemon::TaskType;
use crate::duration::days_read_back;
use crate::number::{decimal, decimal_reads_back, is_digit, parse_undoes_decimal};
use crate::policy::{ConflictArg, ConflictPolicy, conflict_name, conflict_name_reads_back};
use crate::policy::conflict_named;
use crate::round_trip::{carries_out, daemon_does_its_task, is_read_as, reads_number, reads_policy};
use crate::text::{flagged, opt_text, texts};

verus! {

/// Whether all the words can stand on a command line.
pub open spec fn all_plain(words: Seq<Seq<char>>) -> bool {
    forall|i: int| 0 <= i < words.len() ==> is_plain(#[trigger] words[i])
}

/// Whether a word that may be missing can stand on a command line.
pub open spec fn plain_if_any(word: Option<String>) -> bool {
    opt_text(word) matches Some(w) ==> is_plain(w)
}

/// Whether every text of a task can stand on a command line: it is not empty
/// and does not begin with a hyphen.
pub open spec fn can_be_handed_over(task: TaskType) -> bool {
    match task {
        TaskType::Unzip { path, .. } => is_plain(path@),
        TaskType::Mirror { src, dest, remote, included, excluded, .. } => {
            &&& is_plain(src@)
            &&& is_plain(dest@)
            &&& plain_if_any(remote)
            &&& all_plain(texts(included@))
            &&& all_plain(texts(excluded@))
        },
        TaskType::Sort { path, rules, .. } => is_plain(path@) && all_plain(texts(rules@)),
        TaskType::Clean { path, move_to, remote, .. } => {
            &&& is_plain(path@)
            &&& plain_if_any(move_to)
            &&& plain_if_any(remote)
        },
    }
}

/// An option with each of the values.
pub open spec fn pairs(name: Seq<char>, values: Seq<Seq<char>>) -> Seq<(Seq<char>, Seq<char>)> {
    values.map_values(|v: Seq<char>| (name, v))
}

/// An option with its value, if it has one.
pub open spec fn pair_if_any(name: Seq<char>, value: Option<Seq<char>>) -> Seq<
    (Seq<char>, Seq<char>),
> {
    match value {
        Some(v) => seq![(name, v)],
        None => seq![],
    }
}

/// The options that name a remote machine.
pub open spec fn remote_pairs(remote: Option<Seq<char>>, port: Option<u16>) -> Seq<
    (Seq<char>, Seq<char>),
> {
    match remote {
        Some(r) => seq![("--scp"@, r), ("--port-scp"@, decimal(port_or_default(port)))],
        None => seq![],
    }
}

/// What stands on the command line of a daemon.
pub open spec fn line_of(task: TaskType) -> Arguments {
    match task {
        TaskType::Unzip { path, delete, conflict, stable_secs } => Arguments {
            flags: seq!["--daemon-internal"@] + flag_args(!delete, "--no-delete"@),
            options: seq![
                ("--on-conflict"@, conflict_name(conflict)),
                ("--stable-secs"@, decimal(stable_secs as nat)),
            ],
            plain: seq!["unzip"@, path@],
            pending: None,
        },
        TaskType::Mirror {
            src,
            dest,
            remote,
            port,
            use_rsync,
            conflict,
            stable_secs,
            included,
            excluded,
        } => Arguments {
            flags: seq!["--daemon-internal"@] + flag_args(use_rsync, "--rsync"@),
            options: remote_pairs(opt_text(remote), port) + seq![
                ("--on-conflict"@, conflict_name(conflict)),
                ("--stable-secs"@, decimal(stable_secs as nat)),
            ] + pairs("--include"@, texts(included@)) + pairs("--exclude"@, texts(excluded@)),
            plain: seq!["mirror"@, src@, dest@],
            pending: None,
        },
        TaskType::Sort { path, rules, conflict, stable_secs } => Arguments {
            flags: seq!["--daemon-internal"@],
            options: pairs("--rule"@, texts(rules@)) + seq![
                ("--on-conflict"@, conflict_name(conflict)),
                ("--stable-secs"@, decimal(stable_secs as nat)),
            ],
            plain: seq!["sort"@, path@],
            pending: None,
        },
        TaskType::Clean {
            path,
            older_than_days,
            move_to,
            remote,
            port,
            use_rsync,
            empty_dirs,
            conflict,
        } => Arguments {
            flags: seq!["--daemon-internal"@] + flag_args(use_rsync, "--rsync"@) + flag_args(
                empty_dirs,
                "--empty-dirs"@,
            ),
            options: seq![("--older-than"@, decimal(older_than_days as nat) + "d"@)] + pair_if_any(
                "--move-to"@,
                opt_text(move_to),
            ) + remote_pairs(opt_text(remote), port) + seq![
                ("--on-conflict"@, conflict_name(conflict)),
            ],
            plain: seq!["clean"@, path@],
            pending: None,
        },
    }
}

/// The flags and the options are different words, and the commands are plain.
proof fn lemma_words()
    ensures
        is_flag("--daemon-internal"@) && !takes_value("--daemon-internal"@),
        is_flag("--no-delete"@) && !takes_value("--no-delete"@),
        is_flag("--rsync"@) && !takes_value("--rsync"@),
        is_flag("--empty-dirs"@) && !takes_value("--empty-dirs"@),
        is_plain("unzip"@) && !takes_value("unzip"@) && !is_flag("unzip"@),
        is_plain("mirror"@) && !takes_value("mirror"@) && !is_flag("mirror"@),
        is_plain("sort"@) && !takes_value("sort"@) && !is_flag("sort"@),
        is_plain("clean"@) && !takes_value("clean"@) && !is_flag("clean"@),
        forall|w: Seq<char>| #[trigger] is_plain(w) ==> !takes_value(w) && !is_flag(w),
{
    reveal_strlit("--on-conflict");
    reveal_strlit("--stable-secs");
    reveal_strlit("--scp");
    reveal_strlit("--port-scp");
    reveal_strlit("--include");
    reveal_strlit("--exclude");
    reveal_strlit("--rule");
    reveal_strlit("--older-than");
    reveal_strlit("--move-to");
    reveal_strlit("--name");
    reveal_strlit("--daemon-internal");
    reveal_strlit("--no-delete");
    reveal_strlit("--rsync");
    reveal_strlit("--empty-dirs");
    reveal_strlit("--dry-run");
    reveal_strlit("unzip");
    reveal_strlit("mirror");
    reveal_strlit("sort");
    reveal_strlit("clean");
    assert("--on-conflict"@.len() == 13 && "--stable-secs"@.len() == 13 && "--scp"@.len() == 5
        && "--port-scp"@.len() == 10 && "--include"@.len() == 9 && "--exclude"@.len() == 9
        && "--rule"@.len() == 6 && "--older-than"@.len() == 12 && "--move-to"@.len() == 9
        && "--name"@.len() == 6);
    assert("--daemon-internal"@.len() == 17 && "--no-delete"@.len() == 11 && "--rsync"@.len() == 7
        && "--empty-dirs"@.len() == 12);
    assert("--empty-dirs"@[2] == 'e' && "--older-than"@[2] == 'o');
    assert forall|w: Seq<char>| #[trigger] is_plain(w) implies !takes_value(w) && !is_flag(w) by {
        if takes_value(w) || is_flag(w) {
            assert(w[0] == '-');
        }
    }
    assert("unzip"@[0] == 'u' && "mirror"@[0] == 'm' && "sort"@[0] == 's' && "clean"@[0] == 'c');
}

/// The names of policies, and numbers, can stand on a command line.
proof fn lemma_values_are_plain(conflict: ConflictPolicy, n: nat)
    ensures
        is_plain(conflict_name(conflict)),
        is_plain(decimal(n)),
        is_plain(decimal(n) + "d"@),
{
    reveal_strlit("skip");
    reveal_strlit("overwrite");
    reveal_strlit("rename");
    reveal_strlit("newest");
    decimal_reads_back(n);
    assert(is_digit(decimal(n)[0]));
    assert((decimal(n) + "d"@)[0] == decimal(n)[0]);
    assert("skip"@[0] == 's' && "overwrite"@[0] == 'o' && "rename"@[0] == 'r' && "newest"@[0]
        == 'n');
}

proof fn lemma_read_plain(a: Arguments, word: Seq<char>)
    requires
        a.pending is None,
        is_plain(word),
    ensures
        read_words(Some(a), seq![word]) == Some(Arguments { plain: a.plain.push(word), ..a }),
{
    lemma_words();
    lemma_read_one(a, word);
}

proof fn lemma_read_flag(a: Arguments, set: bool, flag: Seq<char>)
    requires
        a.pending is None,
        is_flag(flag) && !takes_value(flag),
    ensures
        read_words(Some(a), flag_args(set, flag)) == Some(
            Arguments { flags: a.flags + flag_args(set, flag), ..a },
        ),
{
    if set {
        lemma_read_one(a, flag);
        assert(a.flags.push(flag) =~= a.flags + seq![flag]);
    } else {
        assert(a.flags + seq![] =~= a.flags);
    }
}

proof fn lemma_read_pair(a: Arguments, name: Seq<char>, value: Seq<char>)
    requires
        a.pending is None,
        takes_value(name),
        is_plain(value),
    ensures
        read_words(Some(a), seq![name, value]) == Some(
            Arguments { options: a.options + seq![(name, value)], ..a },
        ),
{
    lemma_read_option(a, name, value);
    assert(a.options.push((name, value)) =~= a.options + seq![(name, value)]);
}

proof fn lemma_read_option_if_any(a: Arguments, name: Seq<char>, value: Option<Seq<char>>)
    requires
        a.pending is None,
        takes_value(name),
        value matches Some(v) ==> is_plain(v),
    ensures
        read_words(Some(a), option_args(name, value)) == Some(
            Arguments { options: a.options + pair_if_any(name, value), ..a },
        ),
{
    match value {
        Some(v) => lemma_read_pair(a, name, v),
        None => {
            assert(a.options + seq![] =~= a.options);
        },
    }
}

proof fn lemma_read_remote(a: Arguments, remote: Option<Seq<char>>, port: Option<u16>)
    requires
        a.pending is None,
        remote matches Some(r) ==> is_plain(r),
    ensures
        read_words(Some(a), remote_args(remote, port)) == Some(
            Arguments { options: a.options + remote_pairs(remote, port), ..a },
        ),
{
    match remote {
        Some(r) => {
            let p = decimal(port_or_default(port));
            lemma_values_are_plain(ConflictPolicy::Skip, port_or_default(port));
            lemma_read_pair(a, "--scp"@, r);
            let b = Arguments { options: a.options + seq![("--scp"@, r)], ..a };
            lemma_read_pair(b, "--port-scp"@, p);
            assert(remote_args(remote, port) =~= seq!["--scp"@, r] + seq!["--port-scp"@, p]);
            lemma_read_parts(Some(a), seq!["--scp"@, r], seq!["--port-scp"@, p]);
            assert(a.options + remote_pairs(remote, port) =~= a.options + seq![("--scp"@, r)]
                + seq![("--port-scp"@, p)]);
        },
        None => {
            assert(a.options + seq![] =~= a.options);
        },
    }
}

proof fn lemma_read_flagged(a: Arguments, name: Seq<char>, given: Seq<Seq<char>>)
    requires
        a.pending is None,
        takes_value(name),
        all_plain(given),
    ensures
        read_words(Some(a), flagged(name, given)) == Some(
            Arguments { options: a.options + pairs(name, given), ..a },
        ),
    decreases given.len(),
{
    if given.len() == 0 {
        assert(a.options + pairs(name, given) =~= a.options);
    } else {
        let front = given.drop_last();
        assert(forall|i: int| 0 <= i < front.len() ==> front[i] == #[trigger] given[i]);
        assert(is_plain(given[given.len() - 1]));
        lemma_read_flagged(a, name, front);
        let b = Arguments { options: a.options + pairs(name, front), ..a };
        lemma_read_option(b, name, given.last());
        lemma_read_parts(Some(a), flagged(name, front), seq![name, given.last()]);
        assert(b.options.push((name, given.last())) =~= a.options + pairs(name, given));
    }
}

/// What the last options of most tasks are read as.
proof fn lemma_read_tail(a: Arguments, conflict: ConflictPolicy, stable_secs: u64)
    requires
        a.pending is None,
    ensures
        read_words(
            read_words(Some(a), seq!["--on-conflict"@, conflict_name(conflict)]),
            seq!["--stable-secs"@, decimal(stable_secs as nat)],
        ) == Some(
            Arguments {
                options: a.options + seq![
                    ("--on-conflict"@, conflict_name(conflict)),
                    ("--stable-secs"@, decimal(stable_secs as nat)),
                ],
                ..a
            },
        ),
{
    lemma_values_are_plain(conflict, stable_secs as nat);
    lemma_read_pair(a, "--on-conflict"@, conflict_name(conflict));
    let b = Arguments {
        options: a.options + seq![("--on-conflict"@, conflict_name(conflict))],
        ..a
    };
    lemma_read_pair(b, "--stable-secs"@, decimal(stable_secs as nat));
    assert(b.options + seq![("--stable-secs"@, decimal(stable_secs as nat))] =~= a.options + seq![
        ("--on-conflict"@, conflict_name(conflict)),
        ("--stable-secs"@, decimal(stable_secs as nat)),
    ]);
}

/// What the first words of a daemon's command line are read as.
proof fn lemma_read_head(kind: Seq<char>, path: Seq<char>)
    requires
        is_plain(kind),
        is_plain(path),
    ensures
        read_words(Some(nothing_read()), seq!["--daemon-internal"@, kind, path]) == Some(
            Arguments { flags: seq!["--daemon-internal"@], plain: seq![kind, path], ..nothing_read() },
        ),
{
    lemma_words();
    let a = nothing_read();
    let b = Arguments { flags: seq!["--daemon-internal"@], ..a };
    let c = Arguments { plain: seq![kind], ..b };
    lemma_read_one(a, "--daemon-internal"@);
    assert(a.flags.push("--daemon-internal"@) =~= b.flags);
    lemma_read_plain(b, kind);
    assert(b.plain.push(kind) =~= c.plain);
    lemma_read_plain(c, path);
    assert(c.plain.push(path) =~= seq![kind, path]);
    assert(seq!["--daemon-internal"@, kind, path] =~= seq!["--daemon-internal"@] + (seq![kind]
        + seq![path]));
    lemma_read_parts(Some(a), seq!["--daemon-internal"@], seq![kind] + seq![path]);
    lemma_read_parts(Some(b), seq![kind], seq![path]);
}

/// The command line of a daemon is read as what was put on it.
pub proof fn daemon_line_is_read(task: TaskType)
    requires
        can_be_handed_over(task),
    ensures
        command_line(task_args(task)) == Some(line_of(task)),
{
    lemma_words();
    let none = Some(nothing_read());
    match task {
        TaskType::Unzip { path, delete, conflict, stable_secs } => {
            lemma_read_head("unzip"@, path@);
            let a = Arguments {
                flags: seq!["--daemon-internal"@],
                plain: seq!["unzip"@, path@],
                ..nothing_read()
            };
            lemma_read_flag(a, !delete, "--no-delete"@);
            let b = Arguments { flags: a.flags + flag_args(!delete, "--no-delete"@), ..a };
            lemma_read_tail(b, conflict, stable_secs);
            let w1 = seq!["--daemon-internal"@, "unzip"@, path@];
            let w2 = w1 + flag_args(!delete, "--no-delete"@);
            let w3 = w2 + seq!["--on-conflict"@, conflict_name(conflict)];
            lemma_read_parts(none, w1, flag_args(!delete, "--no-delete"@));
            lemma_read_parts(none, w2, seq!["--on-conflict"@, conflict_name(conflict)]);
            lemma_read_parts(none, w3, seq!["--stable-secs"@, decimal(stable_secs as nat)]);
            assert(line_of(task).options =~= b.options + line_of(task).options);
        },
        TaskType::Mirror { .. } => lemma_mirror_line(task),
        TaskType::Sort { path, rules, conflict, stable_secs } => {
            lemma_read_head("sort"@, path@);
            let a = Arguments {
                flags: seq!["--daemon-internal"@],
                plain: seq!["sort"@, path@],
                ..nothing_read()
            };
            let rs = texts(rules@);
            lemma_read_flagged(a, "--rule"@, rs);
            let b = Arguments { options: a.options + pairs("--rule"@, rs), ..a };
            lemma_read_tail(b, conflict, stable_secs);
            let w1 = seq!["--daemon-internal"@, "sort"@, path@];
            let w2 = w1 + flagged("--rule"@, rs);
            let w3 = w2 + seq!["--on-conflict"@, conflict_name(conflict)];
            lemma_read_parts(none, w1, flagged("--rule"@, rs));
            lemma_read_parts(none, w2, seq!["--on-conflict"@, conflict_name(conflict)]);
            lemma_read_parts(none, w3, seq!["--stable-secs"@, decimal(stable_secs as nat)]);
            assert(a.options + pairs("--rule"@, rs) =~= pairs("--rule"@, rs));
        },
        TaskType::Clean { .. } => lemma_clean_line(task),
    }
}

proof fn lemma_mirror_line(task: TaskType)
    requires
        task is Mirror,
        can_be_handed_over(task),
    ensures
        command_line(task_args(task)) == Some(line_of(task)),
{
    lemma_words();
    if let TaskType::Mirror {
        src,
        dest,
        remote,
        port,
        use_rsync,
        conflict,
        stable_secs,
        included,
        excluded,
    } = task {
        let none = Some(nothing_read());
        let (ins, outs) = (texts(included@), texts(excluded@));
        let policy = seq!["--on-conflict"@, conflict_name(conflict)];
        let secs = seq!["--stable-secs"@, decimal(stable_secs as nat)];
        let tail = seq![
            ("--on-conflict"@, conflict_name(conflict)),
            ("--stable-secs"@, decimal(stable_secs as nat)),
        ];
        let a0 = Arguments {
            flags: seq!["--daemon-internal"@],
            plain: seq!["mirror"@, src@],
            ..nothing_read()
        };
        let a1 = Arguments { plain: seq!["mirror"@, src@, dest@], ..a0 };
        let a2 = Arguments { options: remote_pairs(opt_text(remote), port), ..a1 };
        let a3 = Arguments { flags: a2.flags + flag_args(use_rsync, "--rsync"@), ..a2 };
        let a4 = Arguments { options: a3.options + tail, ..a3 };
        let a5 = Arguments { options: a4.options + pairs("--include"@, ins), ..a4 };
        let w0 = seq!["--daemon-internal"@, "mirror"@, src@];
        let w1 = seq!["--daemon-internal"@, "mirror"@, src@, dest@];
        let w2 = w1 + remote_args(opt_text(remote), port);
        let w3 = w2 + flag_args(use_rsync, "--rsync"@);
        let w4 = w3 + policy;
        let w5 = w4 + secs;
        let w6 = w5 + flagged("--include"@, ins);
        lemma_read_head("mirror"@, src@);
        lemma_read_plain(a0, dest@);
        assert(a0.plain.push(dest@) =~= a1.plain);
        assert(w1 =~= w0 + seq![dest@]);
        lemma_read_parts(none, w0, seq![dest@]);
        lemma_read_remote(a1, opt_text(remote), port);
        assert(a1.options + remote_pairs(opt_text(remote), port) =~= a2.options);
        lemma_read_parts(none, w1, remote_args(opt_text(remote), port));
        lemma_read_flag(a2, use_rsync, "--rsync"@);
        lemma_read_parts(none, w2, flag_args(use_rsync, "--rsync"@));
        lemma_read_tail(a3, conflict, stable_secs);
        lemma_read_parts(none, w3, policy);
        lemma_read_parts(none, w4, secs);
        lemma_read_flagged(a4, "--include"@, ins);
        lemma_read_parts(none, w5, flagged("--include"@, ins));
        lemma_read_flagged(a5, "--exclude"@, outs);
        lemma_read_parts(none, w6, flagged("--exclude"@, outs));
    }
}

proof fn lemma_clean_line(task: TaskType)
    requires
        task is Clean,
        can_be_handed_over(task),
    ensures
        command_line(task_args(task)) == Some(line_of(task)),
{
    lemma_words();
    if let TaskType::Clean {
        path,
        older_than_days,
        move_to,
        remote,
        port,
        use_rsync,
        empty_dirs,
        conflict,
    } = task {
        let none = Some(nothing_read());
        let age = decimal(older_than_days as nat) + "d"@;
        let policy = seq!["--on-conflict"@, conflict_name(conflict)];
        let older = seq!["--older-than"@, age];
        let a0 = Arguments {
            flags: seq!["--daemon-internal"@],
            plain: seq!["clean"@, path@],
            ..nothing_read()
        };
        let a1 = Arguments { options: seq![("--older-than"@, age)], ..a0 };
        let a2 = Arguments {
            options: a1.options + pair_if_any("--move-to"@, opt_text(move_to)),
            ..a1
        };
        let a3 = Arguments { options: a2.options + remote_pairs(opt_text(remote), port), ..a2 };
        let a4 = Arguments { flags: a3.flags + flag_args(use_rsync, "--rsync"@), ..a3 };
        let a5 = Arguments { flags: a4.flags + flag_args(empty_dirs, "--empty-dirs"@), ..a4 };
        let w0 = seq!["--daemon-internal"@, "clean"@, path@];
        let w1 = w0 + older;
        let w2 = w1 + option_args("--move-to"@, opt_text(move_to));
        let w3 = w2 + remote_args(opt_text(remote), port);
        let w4 = w3 + flag_args(use_rsync, "--rsync"@);
        let w5 = w4 + flag_args(empty_dirs, "--empty-dirs"@);
        lemma_values_are_plain(conflict, older_than_days as nat);
        lemma_read_head("clean"@, path@);
        lemma_read_pair(a0, "--older-than"@, age);
        assert(a0.options + seq![("--older-than"@, age)] =~= a1.options);
        lemma_read_parts(none, w0, older);
        lemma_read_option_if_any(a1, "--move-to"@, opt_text(move_to));
        lemma_read_parts(none, w1, option_args("--move-to"@, opt_text(move_to)));
        lemma_read_remote(a2, opt_text(remote), port);
        lemma_read_parts(none, w2, remote_args(opt_text(remote), port));
        lemma_read_flag(a3, use_rsync, "--rsync"@);
        lemma_read_parts(none, w3, flag_args(use_rsync, "--rsync"@));
        lemma_read_flag(a4, empty_dirs, "--empty-dirs"@);
        lemma_read_parts(none, w4, flag_args(empty_dirs, "--empty-dirs"@));
        lemma_read_pair(a5, "--on-conflict"@, conflict_name(conflict));
        lemma_read_parts(none, w5, policy);
    }
}

/// The options are told apart by their lengths and their first letters.
proof fn lemma_options_differ()
    ensures
        "--on-conflict"@.len() == 13 && "--on-conflict"@[2] == 'o',
        "--stable-secs"@.len() == 13 && "--stable-secs"@[2] == 's',
        "--scp"@.len() == 5,
        "--port-scp"@.len() == 10,
        "--include"@.len() == 9 && "--include"@[2] == 'i',
        "--exclude"@.len() == 9 && "--exclude"@[2] == 'e',
        "--move-to"@.len() == 9 && "--move-to"@[2] == 'm',
        "--rule"@.len() == 6 && "--rule"@[2] == 'r',
        "--name"@.len() == 6 && "--name"@[2] == 'n',
        "--dry-run"@.len() == 9,
        "--older-than"@.len() == 12,
        "--daemon-internal"@.len() == 17,
        "--no-delete"@.len() == 11,
        "--rsync"@.len() == 7,
        "--empty-dirs"@.len() == 12,
{
    reveal_strlit("--on-conflict");
    reveal_strlit("--stable-secs");
    reveal_strlit("--scp");
    reveal_strlit("--port-scp");
    reveal_strlit("--include");
    reveal_strlit("--exclude");
    reveal_strlit("--move-to");
    reveal_strlit("--rule");
    reveal_strlit("--name");
    reveal_strlit("--dry-run");
    reveal_strlit("--older-than");
    reveal_strlit("--daemon-internal");
    reveal_strlit("--no-delete");
    reveal_strlit("--rsync");
    reveal_strlit("--empty-dirs");
}

proof fn lemma_values_of_one(name: Seq<char>, value: Seq<char>, asked: Seq<char>)
    ensures
        values(seq![(name, value)], asked) == if name == asked {
            seq![value]
        } else {
            seq![]
        },
{
    let one = seq![(name, value)];
    assert(one.drop_last() =~= seq![]);
    assert(values(seq![], asked) =~= seq![]);
    assert(values(one, asked) =~= if name == asked {
        seq![value]
    } else {
        seq![]
    });
}

proof fn lemma_values_of_two(
    name: Seq<char>,
    value: Seq<char>,
    name2: Seq<char>,
    value2: Seq<char>,
    asked: Seq<char>,
)
    ensures
        values(seq![(name, value), (name2, value2)], asked) == values(seq![(name, value)], asked)
            + values(seq![(name2, value2)], asked),
{
    assert(seq![(name, value), (name2, value2)] =~= seq![(name, value)] + seq![(name2, value2)]);
    lemma_values_parts(seq![(name, value)], seq![(name2, value2)], asked);
}

proof fn lemma_values_of_pairs(name: Seq<char>, given: Seq<Seq<char>>, asked: Seq<char>)
    ensures
        values(pairs(name, given), asked) == if name == asked {
            given
        } else {
            seq![]
        },
    decreases given.len(),
{
    if given.len() == 0 {
        assert(pairs(name, given) =~= seq![]);
        assert(values(pairs(name, given), asked) =~= seq![]);
        assert(given =~= seq![]);
    } else {
        assert(pairs(name, given).drop_last() =~= pairs(name, given.drop_last()));
        lemma_values_of_pairs(name, given.drop_last(), asked);
        assert(given.drop_last().push(given.last()) =~= given);
    }
}

/// The values of the two options that most tasks end in.
proof fn lemma_tail_values(conflict: ConflictPolicy, stable_secs: u64, asked: Seq<char>)
    ensures
        values(
            seq![
                ("--on-conflict"@, conflict_name(conflict)),
                ("--stable-secs"@, decimal(stable_secs as nat)),
            ],
            asked,
        ) == if asked == "--on-conflict"@ {
            seq![conflict_name(conflict)]
        } else if asked == "--stable-secs"@ {
            seq![decimal(stable_secs as nat)]
        } else {
            seq![]
        },
{
    lemma_options_differ();
    let (c, n) = (conflict_name(conflict), decimal(stable_secs as nat));
    lemma_values_of_two("--on-conflict"@, c, "--stable-secs"@, n, asked);
    lemma_values_of_one("--on-conflict"@, c, asked);
    lemma_values_of_one("--stable-secs"@, n, asked);
    assert(seq![c] + seq![] =~= seq![c]);
    assert(Seq::<Seq<char>>::empty() + seq![n] =~= seq![n]);
    assert(Seq::<Seq<char>>::empty() + seq![] =~= seq![]);
}

/// The values of the options that name a remote machine.
proof fn lemma_remote_values(remote: Option<Seq<char>>, port: Option<u16>, asked: Seq<char>)
    ensures
        values(remote_pairs(remote, port), asked) == match remote {
            Some(r) => if asked == "--scp"@ {
                seq![r]
            } else if asked == "--port-scp"@ {
                seq![decimal(port_or_default(port))]
            } else {
                seq![]
            },
            None => seq![],
        },
{
    lemma_options_differ();
    match remote {
        Some(r) => {
            let p = decimal(port_or_default(port));
            lemma_values_of_two("--scp"@, r, "--port-scp"@, p, asked);
            lemma_values_of_one("--scp"@, r, asked);
            lemma_values_of_one("--port-scp"@, p, asked);
            assert(seq![r] + seq![] =~= seq![r]);
            assert(Seq::<Seq<char>>::empty() + seq![p] =~= seq![p]);
            assert(Seq::<Seq<char>>::empty() + seq![] =~= seq![]);
        },
        None => {
            assert(values(seq![], asked) =~= seq![]);
        },
    }
}

/// The value of an option that may be missing.
proof fn lemma_pair_values(name: Seq<char>, value: Option<Seq<char>>, asked: Seq<char>)
    ensures
        values(pair_if_any(name, value), asked) == match value {
            Some(v) => if name == asked {
                seq![v]
            } else {
                seq![]
            },
            None => seq![],
        },
{
    match value {
        Some(v) => lemma_values_of_one(name, v, asked),
        None => {
            assert(values(seq![], asked) =~= seq![]);
        },
    }
}

/// An option that was given once has one value, and it is read.
proof fn lemma_one_value(a: Arguments, name: Seq<char>, v: Seq<char>, w: Seq<char>)
    requires
        values(a.options, name) == seq![v],
        is_value(a, name, Some(w)),
    ensures
        v == w,
{
    assert(seq![v][0] == seq![w][0]);
}

proof fn lemma_policy_said(a: Arguments, policy: ConflictPolicy, arg: ConflictArg)
    requires
        values(a.options, "--on-conflict"@) == seq![conflict_name(policy)],
        says_policy(a, arg),
    ensures
        reads_policy(arg, policy),
{
    assert(seq![conflict_name(policy)].len() == 1);
    assert forall|v: Seq<char>| is_value(a, "--on-conflict"@, Some(v)) implies v == conflict_name(
        policy,
    ) by {
        lemma_one_value(a, "--on-conflict"@, conflict_name(policy), v);
    }
}

proof fn lemma_number_said(a: Arguments, name: Seq<char>, n: nat, read: nat, default: nat, max: nat)
    requires
        values(a.options, name) == seq![decimal(n)],
        says_number(a, name, read, default, max),
    ensures
        reads_number(read, n, max),
{
    assert(seq![decimal(n)].len() == 1);
    assert forall|v: Seq<char>| is_value(a, name, Some(v)) implies v == decimal(n) by {
        lemma_one_value(a, name, decimal(n), v);
    }
}

proof fn lemma_option_said(a: Arguments, name: Seq<char>, v: Option<Seq<char>>, w: Option<Seq<char>>)
    requires
        is_value(a, name, v),
        is_value(a, name, w),
    ensures
        v == w,
{
    let x = match v {
        Some(v) => seq![v],
        None => seq![],
    };
    let y = match w {
        Some(w) => seq![w],
        None => seq![],
    };
    assert(x.len() == y.len());
    if v is Some {
        assert(x[0] == y[0]);
    }
}

/// The plain words of a command line that begins with another command are
/// others.
proof fn lemma_commands_differ()
    ensures
        "unzip"@ != "mirror"@ && "unzip"@ != "sort"@ && "unzip"@ != "clean"@,
        "mirror"@ != "sort"@ && "mirror"@ != "clean"@ && "sort"@ != "clean"@,
{
    reveal_strlit("unzip");
    reveal_strlit("mirror");
    reveal_strlit("sort");
    reveal_strlit("clean");
    assert("unzip"@[0] == 'u' && "mirror"@[0] == 'm' && "sort"@[0] == 's' && "clean"@[0] == 'c');
}

/// What a command line says for a daemon that unpacks or sorts.
proof fn lemma_plain_line_said(task: TaskType, command: Commands)
    requires
        task is Unzip || task is Sort,
        says(line_of(task), command),
    ensures
        is_read_as(task, command),
{
    lemma_options_differ();
    lemma_commands_differ();
    let a = line_of(task);
    match task {
        TaskType::Unzip { path, delete, conflict, stable_secs } => {
            assert(a.plain[0] == "unzip"@);
            assert(command is Unzip);
            if let Commands::Unzip { path: p, no_delete, on_conflict, stable_secs: s, .. } = command {
                assert(a.plain[1] == path@);
                assert(seq!["unzip"@, p@][1] == p@);
                lemma_tail_values(conflict, stable_secs, "--on-conflict"@);
                lemma_tail_values(conflict, stable_secs, "--stable-secs"@);
                lemma_policy_said(a, conflict, on_conflict);
                lemma_number_said(
                    a,
                    "--stable-secs"@,
                    stable_secs as nat,
                    s as nat,
                    2,
                    u64::MAX as nat,
                );
                lemma_flag_said(seq!["--daemon-internal"@], !delete, "--no-delete"@);
            }
        },
        TaskType::Sort { path, rules, conflict, stable_secs } => {
            assert(a.plain[0] == "sort"@);
            assert(command is Sort);
            if let Commands::Sort { path: p, rules: r, on_conflict, stable_secs: s, .. } = command {
                assert(a.plain[1] == path@);
                assert(seq!["sort"@, p@][1] == p@);
                let rs = texts(rules@);
                let tail = seq![
                    ("--on-conflict"@, conflict_name(conflict)),
                    ("--stable-secs"@, decimal(stable_secs as nat)),
                ];
                lemma_sum2(pairs("--rule"@, rs), tail, "--rule"@);
                lemma_sum2(pairs("--rule"@, rs), tail, "--on-conflict"@);
                lemma_sum2(pairs("--rule"@, rs), tail, "--stable-secs"@);
                lemma_values_of_pairs("--rule"@, rs, "--rule"@);
                lemma_values_of_pairs("--rule"@, rs, "--on-conflict"@);
                lemma_values_of_pairs("--rule"@, rs, "--stable-secs"@);
                lemma_tail_values(conflict, stable_secs, "--rule"@);
                lemma_tail_values(conflict, stable_secs, "--on-conflict"@);
                lemma_tail_values(conflict, stable_secs, "--stable-secs"@);
                lemma_policy_said(a, conflict, on_conflict);
                lemma_number_said(
                    a,
                    "--stable-secs"@,
                    stable_secs as nat,
                    s as nat,
                    2,
                    u64::MAX as nat,
                );
            }
        },
        _ => {},
    }
}

/// Parts that give an option nothing do not matter.
proof fn lemma_sum2(
    a: Seq<(Seq<char>, Seq<char>)>,
    b: Seq<(Seq<char>, Seq<char>)>,
    asked: Seq<char>,
)
    ensures
        values(a, asked).len() == 0 ==> values(a + b, asked) == values(b, asked),
        values(b, asked).len() == 0 ==> values(a + b, asked) == values(a, asked),
{
    lemma_values_parts(a, b, asked);
    if values(a, asked).len() == 0 {
        assert(values(a + b, asked) =~= values(b, asked));
    }
    if values(b, asked).len() == 0 {
        assert(values(a + b, asked) =~= values(a, asked));
    }
}

/// A flag behind others is there if it was set.
proof fn lemma_flag_said(before: Seq<Seq<char>>, set: bool, flag: Seq<char>)
    requires
        !before.contains(flag),
    ensures
        (before + flag_args(set, flag)).contains(flag) == set,
{
    let all = before + flag_args(set, flag);
    if set {
        assert(all[before.len() as int] == flag);
    } else {
        assert(all =~= before);
    }
}

/// The options of a mirror, for the option that is asked.
proof fn lemma_mirror_values(task: TaskType, asked: Seq<char>)
    requires
        task is Mirror,
        asked == "--scp"@ || asked == "--port-scp"@ || asked == "--on-conflict"@ || asked
            == "--stable-secs"@ || asked == "--include"@ || asked == "--exclude"@ || asked
            == "--name"@,
    ensures
        task matches TaskType::Mirror {
            remote,
            port,
            conflict,
            stable_secs,
            included,
            excluded,
            ..
        } && values(line_of(task).options, asked) == if asked == "--include"@ {
            texts(included@)
        } else if asked == "--exclude"@ {
            texts(excluded@)
        } else if asked == "--on-conflict"@ {
            seq![conflict_name(conflict)]
        } else if asked == "--stable-secs"@ {
            seq![decimal(stable_secs as nat)]
        } else if asked == "--name"@ {
            seq![]
        } else {
            match opt_text(remote) {
                Some(r) => if asked == "--scp"@ {
                    seq![r]
                } else {
                    seq![decimal(port_or_default(port))]
                },
                None => seq![],
            }
        },
{
    lemma_options_differ();
    if let TaskType::Mirror { remote, port, conflict, stable_secs, included, excluded, .. } = task {
        let (ins, outs) = (texts(included@), texts(excluded@));
        let p1 = remote_pairs(opt_text(remote), port);
        let p2 = seq![
            ("--on-conflict"@, conflict_name(conflict)),
            ("--stable-secs"@, decimal(stable_secs as nat)),
        ];
        let p3 = pairs("--include"@, ins);
        let p4 = pairs("--exclude"@, outs);
        lemma_remote_values(opt_text(remote), port, asked);
        lemma_tail_values(conflict, stable_secs, asked);
        lemma_values_of_pairs("--include"@, ins, asked);
        lemma_values_of_pairs("--exclude"@, outs, asked);
        lemma_sum2(p1, p2, asked);
        lemma_sum2(p1 + p2, p3, asked);
        lemma_sum2(p1 + p2 + p3, p4, asked);
    }
}

proof fn lemma_mirror_line_said(task: TaskType, command: Commands)
    requires
        task is Mirror,
        says(line_of(task), command),
    ensures
        is_read_as(task, command),
{
    lemma_options_differ();
    lemma_commands_differ();
    let a = line_of(task);
    assert(a.plain[0] == "mirror"@);
    assert(command is Mirror);
    lemma_mirror_values(task, "--scp"@);
    lemma_mirror_values(task, "--port-scp"@);
    lemma_mirror_values(task, "--on-conflict"@);
    lemma_mirror_values(task, "--stable-secs"@);
    lemma_mirror_values(task, "--include"@);
    lemma_mirror_values(task, "--exclude"@);
    if let TaskType::Mirror { src, dest, remote, port, use_rsync, conflict, stable_secs, .. } = task {
        if let Commands::Mirror {
            target_path,
            dest_path,
            scp,
            port_scp,
            on_conflict,
            stable_secs: s,
            ..
        } = command {
            assert(a.plain[1] == src@ && a.plain[2] == dest@);
            let said = seq!["mirror"@, target_path@, dest_path@];
            assert(said[1] == target_path@ && said[2] == dest_path@);
            lemma_option_said(a, "--scp"@, opt_text(scp), opt_text(remote));
            if remote is Some {
                lemma_number_said(
                    a,
                    "--port-scp"@,
                    port_or_default(port),
                    port_scp as nat,
                    22,
                    u16::MAX as nat,
                );
            }
            lemma_policy_said(a, conflict, on_conflict);
            lemma_number_said(
                a,
                "--stable-secs"@,
                stable_secs as nat,
                s as nat,
                2,
                u64::MAX as nat,
            );
            lemma_flag_said(seq!["--daemon-internal"@], use_rsync, "--rsync"@);
        }
    }
}

/// The options of a task that cleans, for the option that is asked.
proof fn lemma_clean_values(task: TaskType, asked: Seq<char>)
    requires
        task is Clean,
        asked == "--scp"@ || asked == "--port-scp"@ || asked == "--on-conflict"@ || asked
            == "--older-than"@ || asked == "--move-to"@ || asked == "--name"@,
    ensures
        task matches TaskType::Clean { older_than_days, move_to, remote, port, conflict, .. }
            && values(line_of(task).options, asked) == if asked == "--older-than"@ {
            seq![decimal(older_than_days as nat) + "d"@]
        } else if asked == "--move-to"@ {
            match opt_text(move_to) {
                Some(m) => seq![m],
                None => seq![],
            }
        } else if asked == "--on-conflict"@ {
            seq![conflict_name(conflict)]
        } else if asked == "--name"@ {
            seq![]
        } else {
            match opt_text(remote) {
                Some(r) => if asked == "--scp"@ {
                    seq![r]
                } else {
                    seq![decimal(port_or_default(port))]
                },
                None => seq![],
            }
        },
{
    lemma_options_differ();
    if let TaskType::Clean { older_than_days, move_to, remote, port, conflict, .. } = task {
        let age = decimal(older_than_days as nat) + "d"@;
        let p1 = seq![("--older-than"@, age)];
        let p2 = pair_if_any("--move-to"@, opt_text(move_to));
        let p3 = remote_pairs(opt_text(remote), port);
        let p4 = seq![("--on-conflict"@, conflict_name(conflict))];
        lemma_values_of_one("--older-than"@, age, asked);
        lemma_pair_values("--move-to"@, opt_text(move_to), asked);
        lemma_remote_values(opt_text(remote), port, asked);
        lemma_values_of_one("--on-conflict"@, conflict_name(conflict), asked);
        lemma_sum2(p1, p2, asked);
        lemma_sum2(p1 + p2, p3, asked);
        lemma_sum2(p1 + p2 + p3, p4, asked);
    }
}

proof fn lemma_clean_line_said(task: TaskType, command: Commands)
    requires
        task is Clean,
        says(line_of(task), command),
    ensures
        is_read_as(task, command),
{
    lemma_options_differ();
    lemma_commands_differ();
    let a = line_of(task);
    assert(a.plain[0] == "clean"@);
    assert(command is Clean);
    lemma_clean_values(task, "--scp"@);
    lemma_clean_values(task, "--port-scp"@);
    lemma_clean_values(task, "--on-conflict"@);
    lemma_clean_values(task, "--older-than"@);
    lemma_clean_values(task, "--move-to"@);
    if let TaskType::Clean {
        path,
        older_than_days,
        move_to,
        remote,
        port,
        use_rsync,
        empty_dirs,
        conflict,
    } = task {
        if let Commands::Clean {
            path: p,
            older_than,
            move_to: m,
            scp,
            port_scp,
            rsync,
            empty_dirs: e,
            on_conflict,
            ..
        } = command {
            assert(a.plain[1] == path@);
            assert(seq!["clean"@, p@][1] == p@);
            lemma_option_said(
                a,
                "--older-than"@,
                Some(older_than@),
                Some(decimal(older_than_days as nat) + "d"@),
            );
            lemma_option_said(a, "--move-to"@, opt_text(m), opt_text(move_to));
            lemma_option_said(a, "--scp"@, opt_text(scp), opt_text(remote));
            if remote is Some {
                lemma_number_said(
                    a,
                    "--port-scp"@,
                    port_or_default(port),
                    port_scp as nat,
                    22,
                    u16::MAX as nat,
                );
            }
            lemma_policy_said(a, conflict, on_conflict);
            let first = seq!["--daemon-internal"@];
            let second = first + flag_args(use_rsync, "--rsync"@);
            lemma_flag_said(first, use_rsync, "--rsync"@);
            lemma_flag_said(second, empty_dirs, "--empty-dirs"@);
            lemma_flag_stays(second, empty_dirs, "--empty-dirs"@, "--rsync"@);
        }
    }
}

/// Another flag behind does not change whether one is there.
proof fn lemma_flag_stays(before: Seq<Seq<char>>, set: bool, flag: Seq<char>, asked: Seq<char>)
    requires
        flag != asked,
    ensures
        (before + flag_args(set, flag)).contains(asked) == before.contains(asked),
{
    let all = before + flag_args(set, flag);
    if before.contains(asked) {
        let i = choose|i: int| 0 <= i < before.len() && before[i] == asked;
        assert(all[i] == asked);
    }
    if all.contains(asked) {
        let i = choose|i: int| 0 <= i < all.len() && all[i] == asked;
        assert(before[i] == asked);
    }
}

/// What the command line of a daemon says, is read of it option by option.
pub proof fn daemon_line_says_its_task(task: TaskType, command: Commands)
    requires
        can_be_handed_over(task),
        command_line(task_args(task)) matches Some(a) && says(a, command),
    ensures
        is_read_as(task, command),
{
    daemon_line_is_read(task);
    match task {
        TaskType::Unzip { .. } | TaskType::Sort { .. } => lemma_plain_line_said(task, command),
        TaskType::Mirror { .. } => lemma_mirror_line_said(task, command),
        TaskType::Clean { .. } => lemma_clean_line_said(task, command),
    }
}

/// The command that hands a task to a daemon; `age` is the age of the files
/// that a task that cleans is for.
pub open spec fn handing_over(task: TaskType, age: String) -> Commands {
    match task {
        TaskType::Unzip { path, delete, conflict, stable_secs } => Commands::Unzip {
            path,
            no_delete: !delete,
            name: None,
            on_conflict: conflict_named(conflict_name(conflict))->0,
            stable_secs,
        },
        TaskType::Mirror {
            src,
            dest,
            remote,
            port,
            use_rsync,
            conflict,
            stable_secs,
            included,
            excluded,
        } => Commands::Mirror {
            target_path: src,
            dest_path: dest,
            scp: remote,
            port_scp: port_said(remote, port),
            rsync: use_rsync,
            name: None,
            on_conflict: conflict_named(conflict_name(conflict))->0,
            stable_secs,
            included,
            excluded,
        },
        TaskType::Sort { path, rules, conflict, stable_secs } => Commands::Sort {
            path,
            rules,
            name: None,
            on_conflict: conflict_named(conflict_name(conflict))->0,
            stable_secs,
            dry_run: false,
        },
        TaskType::Clean { path, move_to, remote, port, use_rsync, empty_dirs, conflict, .. } => {
            Commands::Clean {
                path,
                older_than: age,
                move_to,
                scp: remote,
                port_scp: port_said(remote, port),
                rsync: use_rsync,
                empty_dirs,
                name: None,
                on_conflict: conflict_named(conflict_name(conflict))->0,
                dry_run: false,
            }
        },
    }
}

/// The port that a command line names, which is 22 if it names no machine.
pub open spec fn port_said(remote: Option<String>, port: Option<u16>) -> u16 {
    if remote is Some {
        port_or_default(port) as u16
    } else {
        22
    }
}

proof fn lemma_says_policy(a: Arguments, policy: ConflictPolicy)
    requires
        values(a.options, "--on-conflict"@) == seq![conflict_name(policy)],
    ensures
        says_policy(a, conflict_named(conflict_name(policy))->0),
{
    conflict_name_reads_back(policy);
    assert(is_value(a, "--on-conflict"@, Some(conflict_name(policy))));
}

proof fn lemma_says_number(a: Arguments, name: Seq<char>, n: nat, default: nat, max: nat)
    requires
        n <= max,
        values(a.options, name) == seq![decimal(n)],
    ensures
        says_number(a, name, n, default, max),
{
    parse_undoes_decimal(n, max);
    assert(is_value(a, name, Some(decimal(n))));
}

/// The command line of a daemon says the command that hands its task over.
pub proof fn daemon_line_says_a_command(task: TaskType, age: String)
    requires
        can_be_handed_over(task),
        task matches TaskType::Clean { older_than_days, .. } ==> age@ == decimal(
            older_than_days as nat,
        ) + "d"@,
    ensures
        command_line(task_args(task)) is Some,
        says(command_line(task_args(task))->0, handing_over(task, age)),
{
    lemma_options_differ();
    daemon_line_is_read(task);
    let a = line_of(task);
    let first = seq!["--daemon-internal"@];
    match task {
        TaskType::Unzip { delete, conflict, stable_secs, .. } => {
            lemma_tail_values(conflict, stable_secs, "--on-conflict"@);
            lemma_tail_values(conflict, stable_secs, "--stable-secs"@);
            lemma_tail_values(conflict, stable_secs, "--name"@);
            lemma_says_policy(a, conflict);
            lemma_says_number(a, "--stable-secs"@, stable_secs as nat, 2, u64::MAX as nat);
            lemma_flag_said(first, !delete, "--no-delete"@);
        },
        TaskType::Mirror { remote, port, use_rsync, conflict, stable_secs, .. } => {
            lemma_mirror_values(task, "--scp"@);
            lemma_mirror_values(task, "--port-scp"@);
            lemma_mirror_values(task, "--on-conflict"@);
            lemma_mirror_values(task, "--stable-secs"@);
            lemma_mirror_values(task, "--include"@);
            lemma_mirror_values(task, "--exclude"@);
            lemma_mirror_values(task, "--name"@);
            lemma_says_policy(a, conflict);
            lemma_says_number(a, "--stable-secs"@, stable_secs as nat, 2, u64::MAX as nat);
            if remote is Some {
                lemma_says_number(
                    a,
                    "--port-scp"@,
                    port_or_default(port),
                    22,
                    u16::MAX as nat,
                );
            } else {
                assert(is_value(a, "--port-scp"@, None));
            }
            lemma_flag_said(first, use_rsync, "--rsync"@);
        },
        TaskType::Sort { rules, conflict, stable_secs, .. } => {
            let rs = texts(rules@);
            let tail = seq![
                ("--on-conflict"@, conflict_name(conflict)),
                ("--stable-secs"@, decimal(stable_secs as nat)),
            ];
            lemma_sum2(pairs("--rule"@, rs), tail, "--rule"@);
            lemma_sum2(pairs("--rule"@, rs), tail, "--on-conflict"@);
            lemma_sum2(pairs("--rule"@, rs), tail, "--stable-secs"@);
            lemma_sum2(pairs("--rule"@, rs), tail, "--name"@);
            lemma_values_of_pairs("--rule"@, rs, "--rule"@);
            lemma_values_of_pairs("--rule"@, rs, "--on-conflict"@);
            lemma_values_of_pairs("--rule"@, rs, "--stable-secs"@);
            lemma_values_of_pairs("--rule"@, rs, "--name"@);
            lemma_tail_values(conflict, stable_secs, "--rule"@);
            lemma_tail_values(conflict, stable_secs, "--on-conflict"@);
            lemma_tail_values(conflict, stable_secs, "--stable-secs"@);
            lemma_tail_values(conflict, stable_secs, "--name"@);
            lemma_says_policy(a, conflict);
            lemma_says_number(a, "--stable-secs"@, stable_secs as nat, 2, u64::MAX as nat);
        },
        TaskType::Clean { remote, port, use_rsync, empty_dirs, conflict, .. } => {
            lemma_clean_values(task, "--scp"@);
            lemma_clean_values(task, "--port-scp"@);
            lemma_clean_values(task, "--on-conflict"@);
            lemma_clean_values(task, "--older-than"@);
            lemma_clean_values(task, "--move-to"@);
            lemma_clean_values(task, "--name"@);
            lemma_says_policy(a, conflict);
            if remote is Some {
                lemma_says_number(
                    a,
                    "--port-scp"@,
                    port_or_default(port),
                    22,
                    u16::MAX as nat,
                );
            } else {
                assert(is_value(a, "--port-scp"@, None));
            }
            let second = first + flag_args(use_rsync, "--rsync"@);
            lemma_flag_said(first, use_rsync, "--rsync"@);
            lemma_flag_said(second, empty_dirs, "--empty-dirs"@);
            lemma_flag_stays(second, empty_dirs, "--empty-dirs"@, "--rsync"@);
            lemma_flag_stays(first, use_rsync, "--rsync"@, "--dry-run"@);
            lemma_flag_stays(second, empty_dirs, "--empty-dirs"@, "--dry-run"@);
        },
    }
}

/// A daemon that is started with the arguments for a task is told to be one,
/// and carries out that task: its command line is not refused, and the job of
/// whatever command it says is the task, with 22 for a port that is missing.
/// The texts of the task have to be such as can stand on a command line, and a
/// task that cleans has to be for files of a day or more, and of an age that
/// can be told in seconds of 64 bits.
pub proof fn daemon_is_handed_its_task(task: TaskType, command: Commands, job: DaemonJob)
    requires
        can_be_handed_over(task),
        task matches TaskType::Clean { older_than_days, .. } ==> 1 <= older_than_days
            && older_than_days * 86400 <= u64::MAX,
    ensures
        command_line(task_args(task)) is Some,
        command_line(task_args(task))->0.flags.contains("--daemon-internal"@),
        says(command_line(task_args(task))->0, command) ==> age_fits(command),
        says(command_line(task_args(task))->0, command) && is_job(command, job) ==> carries_out(
            job,
            task,
        ),
{
    daemon_line_is_read(task);
    let a = line_of(task);
    assert(a.flags[0] == "--daemon-internal"@);
    if says(a, command) {
        daemon_line_says_its_task(task, command);
        if is_job(command, job) {
            daemon_does_its_task(task, command, job);
        }
        if let TaskType::Clean { older_than_days, .. } = task {
            days_read_back(older_than_days as nat);
        }
    }
}

} // verus!
