//! Creating common tasks by asking for what they need.

use vstd::prelude::*;
use vstd::string::*;

use crate::commands::Commands;
use crate::policy::ConflictArg;
use crate::text::{texts, trimmed};
use crate::text::{push_text, push_two, same_text, trim};

verus! {

/// A common task.
#[derive(Clone, Copy, Debug, PartialEq, Eq, Structural)]
pub enum Starter {
    /// Unpacks the archives that appear in a folder.
    Unzip,
    /// Sorts the files of a folder by one rule.
    Sort,
    /// Moves the old files of a folder away.
    Clean,
}

/// The lines that show the common tasks.
pub fn handle_init() -> (r: Vec<String>)
    ensures
        texts(r@) == seq![
            "Use these starters:"@,
            "  afm unzip ~/Downloads --name downloads-zip"@,
            "  afm sort ~/Downloads --rule \"*.pdf=C:\\Users\\you\\Documents\" --name downloads-sort"@,
            "  afm clean ~/Downloads --older-than 30d --move-to D:\\Archive --name downloads-clean"@,
        ],
{
    let mut out: Vec<String> = Vec::new();
    push_two(
        &mut out,
        "Use these starters:",
        "  afm unzip ~/Downloads --name downloads-zip",
    );
    push_two(
        &mut out,
        "  afm sort ~/Downloads --rule \"*.pdf=C:\\Users\\you\\Documents\" --name downloads-sort",
        "  afm clean ~/Downloads --older-than 30d --move-to D:\\Archive --name downloads-clean",
    );
    assert(texts(out@) =~= seq![
        "Use these starters:"@,
        "  afm unzip ~/Downloads --name downloads-zip"@,
        "  afm sort ~/Downloads --rule \"*.pdf=C:\\Users\\you\\Documents\" --name downloads-sort"@,
        "  afm clean ~/Downloads --older-than 30d --move-to D:\\Archive --name downloads-clean"@,
    ]);
    out
}

/// The question which of the common tasks is to be created.
pub fn starter_question() -> (r: &'static str)
    ensures
        r@ == "Create one now? (1: unzip, 2: sort, 3: clean, Enter: none) "@,
{
    "Create one now? (1: unzip, 2: sort, 3: clean, Enter: none) "
}

/// The common task that the answer asks for, which is its number; any other
/// answer asks for none.
pub open spec fn starter_meant(answer: Seq<char>) -> Option<Starter> {
    if trimmed(answer) == "1"@ {
        Some(Starter::Unzip)
    } else if trimmed(answer) == "2"@ {
        Some(Starter::Sort)
    } else if trimmed(answer) == "3"@ {
        Some(Starter::Clean)
    } else {
        None
    }
}

/// The common task that the answer asks for, which is its number; any other
/// answer asks for none.
pub fn choose_starter(answer: &str) -> (r: Option<Starter>)
    ensures
        r == starter_meant(answer@),
{
    let answer = trim(answer);
    let answer = answer.as_str();
    if same_text(answer, "1") {
        Some(Starter::Unzip)
    } else if same_text(answer, "2") {
        Some(Starter::Sort)
    } else if same_text(answer, "3") {
        Some(Starter::Clean)
    } else {
        None
    }
}

/// What is asked to create a common task.
pub open spec fn questions(starter: Starter) -> Seq<Seq<char>> {
    match starter {
        Starter::Unzip => seq!["Folder to watch: "@, "Name of the task: "@],
        Starter::Sort => seq![
            "Folder to sort: "@,
            "Rule (pattern=destination): "@,
            "Name of the task: "@,
        ],
        Starter::Clean => seq![
            "Folder to clean: "@,
            "Age of the files (such as 30d): "@,
            "Folder to move them to: "@,
            "Name of the task: "@,
        ],
    }
}

/// What is asked to create a common task.
pub fn starter_questions(starter: Starter) -> (r: Vec<String>)
    ensures
        texts(r@) == questions(starter),
{
    let mut out: Vec<String> = Vec::new();
    match starter {
        Starter::Unzip => {
            push_text(&mut out, "Folder to watch: ");
        },
        Starter::Sort => {
            push_two(&mut out, "Folder to sort: ", "Rule (pattern=destination): ");
        },
        Starter::Clean => {
            push_two(&mut out, "Folder to clean: ", "Age of the files (such as 30d): ");
            push_text(&mut out, "Folder to move them to: ");
        },
    }
    push_text(&mut out, "Name of the task: ");
    assert(texts(out@) =~= questions(starter));
    out
}

/// Whether a question was left without an answer.
pub open spec fn is_unanswered(answers: Seq<Seq<char>>) -> bool {
    exists|i: int| 0 <= i < answers.len() && trimmed(#[trigger] answers[i]).len() == 0
}

/// Whether a command creates the common task with these answers: it says what
/// the command line says that has them as its arguments, and leaves all else
/// as it is by default.
pub open spec fn is_starter_command(
    starter: Starter,
    answers: Seq<Seq<char>>,
    command: Commands,
) -> bool {
    match starter {
        Starter::Unzip => command matches Commands::Unzip {
            path,
            no_delete,
            name,
            on_conflict,
            stable_secs,
        } && path@ == trimmed(answers[0]) && !no_delete && name is Some && name->0@ == trimmed(
            answers[1],
        ) && on_conflict == ConflictArg::Rename && stable_secs == 2,
        Starter::Sort => command matches Commands::Sort {
            path,
            rules,
            name,
            on_conflict,
            stable_secs,
            dry_run,
        } && path@ == trimmed(answers[0]) && texts(rules@) == seq![trimmed(answers[1])]
            && name is Some && name->0@ == trimmed(answers[2]) && on_conflict
            == ConflictArg::Rename && stable_secs == 2 && !dry_run,
        Starter::Clean => command matches Commands::Clean {
            path,
            older_than,
            move_to,
            scp,
            port_scp,
            rsync,
            empty_dirs,
            name,
            on_conflict,
            dry_run,
        } && path@ == trimmed(answers[0]) && older_than@ == trimmed(answers[1]) && move_to is Some
            && move_to->0@ == trimmed(answers[2]) && scp is None && port_scp == 22 && !rsync
            && !empty_dirs && name is Some && name->0@ == trimmed(answers[3]) && on_conflict
            == ConflictArg::Rename && !dry_run,
    }
}

/// The command that creates the common task with these answers, without blank
/// space around them. There is none if a question was left without an answer.
pub fn starter_command(starter: Starter, answers: &Vec<String>) -> (r: Option<Commands>)
    requires
        answers@.len() == questions(starter).len(),
    ensures
        if is_unanswered(texts(answers@)) {
            r is None
        } else {
            r is Some && is_starter_command(starter, texts(answers@), r->0)
        },
{
    let ghost all = texts(answers@);
    let mut given: Vec<String> = Vec::new();
    let mut i: usize = 0;
    while i < answers.len()
        invariant
            i <= answers@.len(),
            all == texts(answers@),
            given@.len() == i,
            forall|j: int| 0 <= j < i ==> (#[trigger] given@[j])@ == trimmed(all[j]),
            forall|j: int| 0 <= j < i ==> trimmed(#[trigger] all[j]).len() > 0,
        decreases answers.len() - i,
    {
        let answer = trim(answers[i].as_str());
        assert(all[i as int] == answers@[i as int]@);
        if answer.as_str().is_empty() {
            assert(is_unanswered(all));
            return None;
        }
        given.push(answer);
        i = i + 1;
    }
    assert(!is_unanswered(all));
    let on_conflict = ConflictArg::Rename;
    match starter {
        Starter::Unzip => {
            let name = Some(given.swap_remove(1));
            let path = given.swap_remove(0);
            Some(Commands::Unzip { path, no_delete: false, name, on_conflict, stable_secs: 2 })
        },
        Starter::Sort => {
            let name = Some(given.swap_remove(2));
            let mut rules: Vec<String> = Vec::new();
            rules.push(given.swap_remove(1));
            assert(texts(rules@) =~= seq![trimmed(all[1])]);
            let path = given.swap_remove(0);
            let dry_run = false;
            Some(Commands::Sort { path, rules, name, on_conflict, stable_secs: 2, dry_run })
        },
        Starter::Clean => {
            let name = Some(given.swap_remove(3));
            let move_to = Some(given.swap_remove(2));
            let older_than = given.swap_remove(1);
            let path = given.swap_remove(0);
            Some(
                Commands::Clean {
                    path,
                    older_than,
                    move_to,
                    scp: None,
                    port_scp: 22,
                    rsync: false,
                    empty_dirs: false,
                    name,
                    on_conflict,
                    dry_run: false,
                },
            )
        },
    }
}

} // verus!
