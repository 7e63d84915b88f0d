//! How a command line is read: flags, options with a value behind them, and
//! plain words; and what such a line says.

use vstd::prelude::*;

use crate::commands::Commands;
use crate::number::{NumberError, parsed};
use crate::policy::{ConflictArg, conflict_named};
use crate::text::{opt_text, texts};

verus! {

/// What has been read of a command line.
pub struct Arguments {
    /// The flags.
    pub flags: Seq<Seq<char>>,
    /// The options, each with its value.
    pub options: Seq<(Seq<char>, Seq<char>)>,
    /// The words that are neither.
    pub plain: Seq<Seq<char>>,
    /// The option whose value is still to come.
    pub pending: Option<Seq<char>>,
}

/// Whether a word is an option that takes a value.
pub open spec fn takes_value(word: Seq<char>) -> bool {
    ||| word == "--on-conflict"@
    ||| word == "--stable-secs"@
    ||| word == "--scp"@
    ||| word == "--port-scp"@
    ||| word == "--include"@
    ||| word == "--exclude"@
    ||| word == "--rule"@
    ||| word == "--older-than"@
    ||| word == "--move-to"@
    ||| word == "--name"@
}

/// Whether a word is a flag.
pub open spec fn is_flag(word: Seq<char>) -> bool {
    ||| word == "--daemon-internal"@
    ||| word == "--no-delete"@
    ||| word == "--rsync"@
    ||| word == "--empty-dirs"@
    ||| word == "--dry-run"@
}

/// Whether a word is a plain word, or can be the value of an option.
pub open spec fn is_plain(word: Seq<char>) -> bool {
    word.len() > 0 && word[0] != '-'
}

/// How one more word is read. A word that is nothing of the above is refused,
/// and so is a value that is no plain word.
pub open spec fn read_word(a: Arguments, word: Seq<char>) -> Option<Arguments> {
    match a.pending {
        Some(name) => if is_plain(word) {
            Some(Arguments { options: a.options.push((name, word)), pending: None, ..a })
        } else {
            None
        },
        None => if takes_value(word) {
            Some(Arguments { pending: Some(word), ..a })
        } else if is_flag(word) {
            Some(Arguments { flags: a.flags.push(word), ..a })
        } else if is_plain(word) {
            Some(Arguments { plain: a.plain.push(word), ..a })
        } else {
            None
        },
    }
}

/// How more words are read.
pub open spec fn read_words(a: Option<Arguments>, words: Seq<Seq<char>>) -> Option<Arguments>
    decreases words.len(),
{
    if words.len() == 0 {
        a
    } else {
        match read_words(a, words.drop_last()) {
            Some(before) => read_word(before, words.last()),
            None => None,
        }
    }
}

/// A command line of which nothing was read.
pub open spec fn nothing_read() -> Arguments {
    Arguments { flags: seq![], options: seq![], plain: seq![], pending: None }
}

/// The command line that the words make, unless it is refused.
pub open spec fn command_line(words: Seq<Seq<char>>) -> Option<Arguments> {
    match read_words(Some(nothing_read()), words) {
        Some(a) => if a.pending is None {
            Some(a)
        } else {
            None
        },
        None => None,
    }
}

/// The values that an option was given, in their order.
pub open spec fn values(options: Seq<(Seq<char>, Seq<char>)>, name: Seq<char>) -> Seq<Seq<char>>
    decreases options.len(),
{
    if options.len() == 0 {
        seq![]
    } else {
        let front = values(options.drop_last(), name);
        if options.last().0 == name {
            front.push(options.last().1)
        } else {
            front
        }
    }
}

/// The value of an option that can be given once, if it was given.
pub open spec fn is_value(a: Arguments, name: Seq<char>, value: Option<Seq<char>>) -> bool {
    values(a.options, name) == match value {
        Some(v) => seq![v],
        None => seq![],
    }
}

/// Whether the option for a policy says `arg`, which is to rename by default.
pub open spec fn says_policy(a: Arguments, arg: ConflictArg) -> bool {
    ||| is_value(a, "--on-conflict"@, None) && arg == ConflictArg::Rename
    ||| exists|v: Seq<char>|
        is_value(a, "--on-conflict"@, Some(v)) && #[trigger] conflict_named(v) == Some(arg)
}

/// Whether an option with a number says `n`, which is `default` by default and
/// `max` at most.
pub open spec fn says_number(a: Arguments, name: Seq<char>, n: nat, default: nat, max: nat) -> bool {
    ||| is_value(a, name, None) && n == default
    ||| exists|v: Seq<char>|
        is_value(a, name, Some(v)) && #[trigger] parsed(v, max) == Ok::<nat, NumberError>(n)
}

/// Whether a command line says the command. Only commands that start a daemon
/// are spoken of.
pub open spec fn says(a: Arguments, command: Commands) -> bool {
    match command {
        Commands::Unzip { path, no_delete, name, on_conflict, stable_secs } => {
            &&& a.plain == seq!["unzip"@, path@]
            &&& no_delete == a.flags.contains("--no-delete"@)
            &&& is_value(a, "--name"@, opt_text(name))
            &&& says_policy(a, on_conflict)
            &&& says_number(a, "--stable-secs"@, stable_secs as nat, 2, u64::MAX as nat)
        },
        Commands::Mirror {
            target_path,
            dest_path,
            scp,
            port_scp,
            rsync,
            name,
            on_conflict,
            stable_secs,
            included,
            excluded,
        } => {
            &&& a.plain == seq!["mirror"@, target_path@, dest_path@]
            &&& is_value(a, "--scp"@, opt_text(scp))
            &&& says_number(a, "--port-scp"@, port_scp as nat, 22, u16::MAX as nat)
            &&& rsync == a.flags.contains("--rsync"@)
            &&& is_value(a, "--name"@, opt_text(name))
            &&& says_policy(a, on_conflict)
            &&& says_number(a, "--stable-secs"@, stable_secs as nat, 2, u64::MAX as nat)
            &&& values(a.options, "--include"@) == texts(included@)
            &&& values(a.options, "--exclude"@) == texts(excluded@)
        },
        Commands::Sort { path, rules, name, on_conflict, stable_secs, dry_run } => {
            &&& a.plain == seq!["sort"@, path@]
            &&& values(a.options, "--rule"@) == texts(rules@)
            &&& is_value(a, "--name"@, opt_text(name))
            &&& says_policy(a, on_conflict)
            &&& says_number(a, "--stable-secs"@, stable_secs as nat, 2, u64::MAX as nat)
            &&& dry_run == a.flags.contains("--dry-run"@)
        },
        Commands::Clean {
            path,
            older_than,
            move_to,
            scp,
            port_scp,
            rsync,
            empty_dirs,
            name,
            on_conflict,
            dry_run,
        } => {
            &&& a.plain == seq!["clean"@, path@]
            &&& is_value(a, "--older-than"@, Some(older_than@))
            &&& is_value(a, "--move-to"@, opt_text(move_to))
            &&& is_value(a, "--scp"@, opt_text(scp))
            &&& says_number(a, "--port-scp"@, port_scp as nat, 22, u16::MAX as nat)
            &&& rsync == a.flags.contains("--rsync"@)
            &&& empty_dirs == a.flags.contains("--empty-dirs"@)
            &&& is_value(a, "--name"@, opt_text(name))
            &&& says_policy(a, on_conflict)
            &&& dry_run == a.flags.contains("--dry-run"@)
        },
        _ => false,
    }
}

/// A command line is read part by part.
pub proof fn lemma_read_parts(a: Option<Arguments>, x: Seq<Seq<char>>, y: Seq<Seq<char>>)
    ensures
        read_words(a, x + y) == read_words(read_words(a, x), y),
    decreases y.len(),
{
    if y.len() == 0 {
        assert(x + y =~= x);
    } else {
        assert((x + y).drop_last() =~= x + y.drop_last());
        lemma_read_parts(a, x, y.drop_last());
    }
}

/// One word is read as a line of its own.
pub proof fn lemma_read_one(a: Arguments, word: Seq<char>)
    ensures
        read_words(Some(a), seq![word]) == read_word(a, word),
{
    assert(seq![word].drop_last() =~= seq![]);
    assert(read_words(Some(a), seq![]) == Some(a));
}

/// An option and its value are read as such.
pub proof fn lemma_read_option(a: Arguments, name: Seq<char>, value: Seq<char>)
    requires
        a.pending is None,
        takes_value(name),
        is_plain(value),
    ensures
        read_words(Some(a), seq![name, value]) == Some(
            Arguments { options: a.options.push((name, value)), ..a },
        ),
{
    let begun = Arguments { pending: Some(name), ..a };
    lemma_read_one(a, name);
    lemma_read_one(begun, value);
    assert(seq![name, value] =~= seq![name] + seq![value]);
    lemma_read_parts(Some(a), seq![name], seq![value]);
}

/// What is given before, and what is given after.
pub proof fn lemma_values_parts(
    a: Seq<(Seq<char>, Seq<char>)>,
    b: Seq<(Seq<char>, Seq<char>)>,
    name: Seq<char>,
)
    ensures
        values(a + b, name) == values(a, name) + values(b, name),
    decreases b.len(),
{
    if b.len() == 0 {
        assert(a + b =~= a);
        assert(values(a, name) + values(b, name) =~= values(a, name));
    } else {
        assert((a + b).drop_last() =~= a + b.drop_last());
        lemma_values_parts(a, b.drop_last(), name);
        assert(values(a + b, name) =~= values(a, name) + values(b, name));
    }
}

} // verus!
