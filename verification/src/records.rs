//! The two records, of what happened and of what can be taken back: text files
//! with one event on each line, the latest at the end.

use vstd::prelude::*;
use vstd::string::*;

use crate::daemon::HistoryEvent;
use crate::number::decimal_int;
use crate::number::to_decimal_int;
use crate::text::{opt_str, opt_text, texts};
use crate::text::{chars_of, push_text, same_text, text_between};

verus! {

/// The parts of a text before, between and behind its newlines.
pub open spec fn pieces(text: Seq<char>) -> Seq<Seq<char>>
    decreases text.len(),
{
    if text.len() == 0 {
        seq![seq![]]
    } else {
        let front = pieces(text.drop_last());
        if text.last() == '\n' {
            front.push(seq![])
        } else {
            front.drop_last().push(front.last().push(text.last()))
        }
    }
}

/// A line without the carriage return at its end.
pub open spec fn without_return(line: Seq<char>) -> Seq<char> {
    if line.len() > 0 && line.last() == '\r' {
        line.drop_last()
    } else {
        line
    }
}

/// The lines that are ended by a newline, or by a carriage return and a newline.
pub open spec fn ended_lines(text: Seq<char>) -> Seq<Seq<char>> {
    pieces(text).drop_last().map_values(|line: Seq<char>| without_return(line))
}

/// The lines of a text: those that are ended, and what stands behind the last
/// newline unless it is empty.
pub open spec fn lines(text: Seq<char>) -> Seq<Seq<char>> {
    if pieces(text).last().len() == 0 {
        ended_lines(text)
    } else {
        ended_lines(text).push(pieces(text).last())
    }
}

/// There is always a last piece.
pub proof fn lemma_pieces_len(text: Seq<char>)
    ensures
        pieces(text).len() > 0,
    decreases text.len(),
{
    if text.len() > 0 {
        lemma_pieces_len(text.drop_last());
    }
}

/// The lines of a text.
pub fn lines_of(text: &str) -> (r: Vec<String>)
    ensures
        texts(r@) == lines(text@),
{
    let chars = chars_of(text);
    let mut out: Vec<String> = Vec::new();
    let mut current: Vec<char> = Vec::new();
    let mut i: usize = 0;
    assert(text@.take(0) =~= seq![]);
    assert(pieces(seq![]) =~= seq![seq![]]);
    assert(texts(out@) =~= ended_lines(seq![]));
    while i < chars.len()
        invariant
            chars@ == text@,
            i <= text@.len(),
            texts(out@) == ended_lines(text@.take(i as int)),
            current@ == pieces(text@.take(i as int)).last(),
        decreases chars.len() - i,
    {
        let ghost before = text@.take(i as int);
        let ghost after = text@.take(i + 1);
        let c = chars[i];
        proof {
            lemma_pieces_len(before);
            assert(after.drop_last() =~= before);
        }
        if c == '\n' {
            let mut end: usize = current.len();
            if end > 0 && current[end - 1] == '\r' {
                end = end - 1;
            }
            let line = text_between(&current, 0, end);
            proof {
                assert(line@ =~= without_return(current@));
                assert(pieces(after).drop_last() =~= pieces(before).drop_last().push(
                    pieces(before).last(),
                ));
                assert(ended_lines(after) =~= ended_lines(before).push(line@));
            }
            push_text(&mut out, line.as_str());
            current = Vec::new();
        } else {
            current.push(c);
            assert(pieces(after).drop_last() =~= pieces(before).drop_last());
        }
        i = i + 1;
    }
    assert(text@.take(i as int) =~= text@);
    if current.len() > 0 {
        let line = text_between(&current, 0, current.len());
        assert(line@ =~= current@);
        push_text(&mut out, line.as_str());
    }
    out
}

/// The lines that are looked at when the history is shown: the last hundred,
/// the latest first.
pub open spec fn latest(all: Seq<Seq<char>>) -> Seq<Seq<char>> {
    Seq::new(
        if all.len() <= 100 {
            all.len()
        } else {
            100
        },
        |i: int| all[all.len() - 1 - i],
    )
}

/// The last hundred lines of the history, the latest first.
pub fn latest_lines(text: &str) -> (r: Vec<String>)
    ensures
        texts(r@) == latest(lines(text@)),
{
    let all = lines_of(text);
    let ghost whole = texts(all@);
    let n: usize = all.len();
    let count: usize = if n <= 100 {
        n
    } else {
        100
    };
    let mut out: Vec<String> = Vec::new();
    let mut i: usize = 0;
    while i < count
        invariant
            n == all@.len(),
            whole == texts(all@),
            i <= count <= n,
            texts(out@) =~= Seq::new(i as nat, |j: int| whole[n - 1 - j]),
        decreases count - i,
    {
        push_text(&mut out, all[n - 1 - i].as_str());
        i = i + 1;
    }
    out
}

/// Whether an event is among those that were asked for: failures only, where
/// `failed` says so, and those of one task only, where one is given.
pub open spec fn is_wanted(event: HistoryEvent, task: Option<Seq<char>>, failed: bool) -> bool {
    &&& failed ==> event.level@ == "error"@
    &&& task is Some ==> opt_text(event.task) == task
}

/// The line that shows an event.
pub open spec fn event_line(event: HistoryEvent) -> Seq<char> {
    decimal_int(event.ts as int) + " ["@ + event.level@ + "] "@ + event.message@
}

/// The lines that show the events that were asked for, in their order. A line
/// of the record that holds no event stands as `None`.
pub open spec fn wanted_lines(
    events: Seq<Option<HistoryEvent>>,
    task: Option<Seq<char>>,
    failed: bool,
) -> Seq<Seq<char>>
    decreases events.len(),
{
    if events.len() == 0 {
        seq![]
    } else {
        let front = wanted_lines(events.drop_last(), task, failed);
        match events.last() {
            Some(event) => if is_wanted(event, task, failed) {
                front.push(event_line(event))
            } else {
                front
            },
            None => front,
        }
    }
}

fn wants(event: &HistoryEvent, task: Option<&str>, failed: bool) -> (r: bool)
    ensures
        r == is_wanted(*event, opt_str(task), failed),
{
    if failed && !same_text(event.level.as_str(), "error") {
        return false;
    }
    match task {
        Some(filter) => match &event.task {
            Some(of) => same_text(of.as_str(), filter),
            None => false,
        },
        None => true,
    }
}

/// The lines that show the events that were asked for. `events` holds what was
/// read from the lines of [`latest_lines`], or `None` for a line that holds no
/// event.
pub fn show_history(
    events: &Vec<Option<HistoryEvent>>,
    task: Option<&str>,
    failed: bool,
) -> (r: Vec<String>)
    ensures
        texts(r@) == wanted_lines(events@, opt_str(task), failed),
{
    let mut out: Vec<String> = Vec::new();
    let mut i: usize = 0;
    assert(texts(out@) =~= seq![]);
    assert(events@.take(0) =~= seq![]);
    while i < events.len()
        invariant
            i <= events@.len(),
            texts(out@) == wanted_lines(events@.take(i as int), opt_str(task), failed),
        decreases events.len() - i,
    {
        assert(events@.take(i + 1).drop_last() =~= events@.take(i as int));
        match &events[i] {
            Some(event) => {
                if wants(event, task, failed) {
                    let mut line = to_decimal_int(event.ts);
                    line.append(" [");
                    line.append(event.level.as_str());
                    line.append("] ");
                    line.append(event.message.as_str());
                    push_text(&mut out, line.as_str());
                }
            },
            None => {},
        }
        i = i + 1;
    }
    assert(events@.take(i as int) =~= events@);
    out
}

/// What is written at the end of a record to add a line to it.
pub open spec fn added(line: Seq<char>) -> Seq<char> {
    line + "\n"@
}

/// What is written at the end of a record to add an event to it, which is given
/// as a line.
pub fn record_line(line: &str) -> (r: String)
    ensures
        r@ == added(line@),
{
    let mut out = line.to_owned();
    out.append("\n");
    out
}

/// A record that holds these lines, each with a newline behind it.
pub open spec fn written(list: Seq<Seq<char>>) -> Seq<char>
    decreases list.len(),
{
    if list.len() == 0 {
        seq![]
    } else {
        written(list.drop_last()) + added(list.last())
    }
}

/// Takes the last event out of the record of what can be taken back: gives the
/// line that holds it, and the record that is left, which holds the other lines.
/// There is none in a record without lines.
pub fn pop_record(text: &str) -> (r: Option<(String, String)>)
    ensures
        if lines(text@).len() == 0 {
            r is None
        } else {
            r matches Some((line, rest)) && line@ == lines(text@).last() && rest@ == written(
                lines(text@).drop_last(),
            )
        },
{
    let mut all = lines_of(text);
    let ghost whole = texts(all@);
    let line = match all.pop() {
        Some(line) => line,
        None => {
            return None;
        },
    };
    let ghost left = whole.drop_last();
    assert(texts(all@) =~= left);
    let mut rest = String::new();
    let mut i: usize = 0;
    assert(rest@ =~= seq![]);
    assert(left.take(0) =~= seq![]);
    while i < all.len()
        invariant
            i <= all@.len(),
            left == texts(all@),
            rest@ == written(left.take(i as int)),
        decreases all.len() - i,
    {
        assert(left.take(i + 1).drop_last() =~= left.take(i as int));
        rest.append(record_line(all[i].as_str()).as_str());
        i = i + 1;
    }
    assert(left.take(i as int) =~= left);
    Some((line, rest))
}

/// The message when a record of what can be taken back has nothing in it.
pub fn nothing_to_undo() -> (r: &'static str)
    ensures
        r@ == "Nothing to undo."@,
{
    "Nothing to undo."
}

/// What is said of a move from `src` to `dest` that was to be taken back.
/// `dest_exists` says whether there was anything to move back.
pub open spec fn undo_line(src: Seq<char>, dest: Seq<char>, dest_exists: bool) -> Seq<char> {
    if dest_exists {
        "Moved "@ + dest + " back to "@ + src
    } else {
        "Cannot undo; "@ + dest + " no longer exists."@
    }
}

/// What is said of a move from `src` to `dest` that was to be taken back.
/// `dest_exists` says whether there was anything to move back.
pub fn undo_message(src: &str, dest: &str, dest_exists: bool) -> (r: String)
    ensures
        r@ == undo_line(src@, dest@, dest_exists),
{
    if dest_exists {
        let mut out = "Moved ".to_owned();
        out.append(dest);
        out.append(" back to ");
        out.append(src);
        out
    } else {
        let mut out = "Cannot undo; ".to_owned();
        out.append(dest);
        out.append(" no longer exists.");
        out
    }
}

/// One thing that is done to take back a move.
#[derive(Clone, Debug, PartialEq, Eq)]
pub enum UndoStep {
    /// The folder that the file came from is made.
    MakeParent,
    /// The file is moved back to where it came from.
    MoveBack,
    /// A line is printed.
    Say(String),
    /// The record is written without the event, as [`pop_record`] left it.
    DropRecord,
}

/// One thing that is done to take back a move, with its text as a sequence.
pub enum Undoing {
    MakeParent,
    MoveBack,
    Say(Seq<char>),
    DropRecord,
}

impl View for UndoStep {
    type V = Undoing;

    open spec fn view(&self) -> Undoing {
        match self {
            UndoStep::MakeParent => Undoing::MakeParent,
            UndoStep::MoveBack => Undoing::MoveBack,
            UndoStep::Say(line) => Undoing::Say(line@),
            UndoStep::DropRecord => Undoing::DropRecord,
        }
    }
}

/// The steps that take back a move from `src` to `dest`: the file is moved back
/// if and only if it is still there, and the event is dropped either way.
pub open spec fn undoing(src: Seq<char>, dest: Seq<char>, dest_exists: bool) -> Seq<Undoing> {
    (if dest_exists {
        seq![Undoing::MakeParent, Undoing::MoveBack]
    } else {
        seq![]
    }) + seq![Undoing::Say(undo_line(src, dest, dest_exists)), Undoing::DropRecord]
}

/// The steps that take back a move from `src` to `dest`, in their order.
/// `dest_exists` says whether there is anything to move back.
pub fn handle_undo(src: &str, dest: &str, dest_exists: bool) -> (r: Vec<UndoStep>)
    ensures
        r@.map_values(|s: UndoStep| s@) == undoing(src@, dest@, dest_exists),
{
    let mut steps: Vec<UndoStep> = Vec::new();
    if dest_exists {
        steps.push(UndoStep::MakeParent);
        steps.push(UndoStep::MoveBack);
    }
    steps.push(UndoStep::Say(undo_message(src, dest, dest_exists)));
    steps.push(UndoStep::DropRecord);
    assert(steps@.map_values(|s: UndoStep| s@) =~= undoing(src@, dest@, dest_exists));
    steps
}

} // verus!
