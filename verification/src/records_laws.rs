//! Laws of the two records.

use vstd::prelude::*;
use vstd::string::*;

use crate::daemon::HistoryEvent;
use crate::number::decimal_int;
use crate::records::lemma_pieces_len;
use crate::records::{added, ended_lines, event_line, is_wanted, latest, lines};
use crate::records::{Undoing, pieces, undo_line, undoing, wanted_lines, without_return, written};

verus! {

/// Whether a text can be an event in a record: it is on one line, and neither
/// is it empty nor does it end in a carriage return.
pub open spec fn is_record(line: Seq<char>) -> bool {
    line.len() > 0 && !line.contains('\n') && line.last() != '\r'
}

/// Text without a newline adds to the last piece.
proof fn lemma_pieces_of_line(text: Seq<char>, line: Seq<char>)
    requires
        !line.contains('\n'),
    ensures
        pieces(text + line) == pieces(text).drop_last().push(pieces(text).last() + line),
    decreases line.len(),
{
    lemma_pieces_len(text);
    if line.len() == 0 {
        assert(text + line =~= text);
        assert(pieces(text).last() + line =~= pieces(text).last());
        assert(pieces(text).drop_last().push(pieces(text).last()) =~= pieces(text));
    } else {
        let front = line.drop_last();
        assert forall|i: int| 0 <= i < front.len() implies front[i] != '\n' by {
            assert(line.contains(line[i]));
        }
        assert(line.contains(line.last()));
        lemma_pieces_of_line(text, front);
        assert((text + line).drop_last() =~= text + front);
        let p = pieces(text + front);
        assert(p.drop_last() =~= pieces(text).drop_last());
        assert((pieces(text).last() + front).push(line.last()) =~= pieces(text).last() + line);
    }
}

/// A newline ends the last piece.
proof fn lemma_pieces_of_newline(text: Seq<char>)
    ensures
        pieces(text + "\n"@) == pieces(text).push(seq![]),
{
    reveal_strlit("\n");
    assert("\n"@ =~= seq!['\n']);
    assert((text + "\n"@).drop_last() =~= text);
}

/// A text that is empty or ends in a newline has an empty last piece.
proof fn lemma_last_piece(text: Seq<char>)
    requires
        text.len() == 0 || text.last() == '\n',
    ensures
        pieces(text).last() == Seq::<char>::empty(),
{
    lemma_pieces_len(text);
}

/// An event that is added to a record is the last of its lines, and the others
/// stay, if the record is empty or ends in a newline.
pub proof fn added_event_is_last(text: Seq<char>, line: Seq<char>)
    requires
        text.len() == 0 || text.last() == '\n',
        is_record(line),
    ensures
        lines(text + added(line)) == lines(text).push(line),
{
    lemma_pieces_len(text);
    lemma_last_piece(text);
    lemma_pieces_of_line(text, line);
    lemma_pieces_of_newline(text + line);
    assert(text + added(line) =~= text + line + "\n"@);
    assert(seq![] + line =~= line);
    let p = pieces(text + added(line));
    assert(p.drop_last() =~= pieces(text + line));
    assert(p.drop_last() =~= pieces(text).drop_last().push(line));
    assert(ended_lines(text + added(line)) =~= ended_lines(text).push(line));
}

/// No line of a text holds a newline.
proof fn lemma_pieces_hold_no_newline(text: Seq<char>, i: int)
    requires
        0 <= i < pieces(text).len(),
    ensures
        !pieces(text)[i].contains('\n'),
    decreases text.len(),
{
    if text.len() > 0 {
        let front = pieces(text.drop_last());
        lemma_pieces_len(text.drop_last());
        if i < pieces(text).len() - 1 {
            assert(pieces(text)[i] == front[i]);
            lemma_pieces_hold_no_newline(text.drop_last(), i);
        } else if text.last() != '\n' {
            lemma_pieces_hold_no_newline(text.drop_last(), front.len() - 1);
            let line = front.last().push(text.last());
            assert forall|j: int| 0 <= j < line.len() implies line[j] != '\n' by {
                if j < front.last().len() {
                    assert(front.last().contains(front.last()[j]));
                }
            }
        }
    }
}

/// No line of a text holds a newline.
pub proof fn lines_hold_no_newline(text: Seq<char>, i: int)
    requires
        0 <= i < lines(text).len(),
    ensures
        !lines(text)[i].contains('\n'),
{
    lemma_pieces_len(text);
    lemma_pieces_hold_no_newline(text, i);
    let piece = pieces(text)[i];
    if i < pieces(text).len() - 1 {
        let line = lines(text)[i];
        assert(line == without_return(piece));
        assert forall|j: int| 0 <= j < line.len() implies line[j] != '\n' by {
            assert(line[j] == piece[j]);
            assert(piece.contains(piece[j]));
        }
    }
}

/// A record that was written is empty or ends in a newline.
proof fn lemma_written_ends(list: Seq<Seq<char>>)
    ensures
        written(list).len() == 0 || written(list).last() == '\n',
{
    reveal_strlit("\n");
    if list.len() > 0 {
        let text = written(list);
        assert(text[text.len() - 1] == "\n"@[0]);
    }
}

/// A record is read as it was written.
pub proof fn written_events_are_read_back(list: Seq<Seq<char>>)
    requires
        forall|i: int| 0 <= i < list.len() ==> is_record(#[trigger] list[i]),
    ensures
        lines(written(list)) == list,
    decreases list.len(),
{
    if list.len() == 0 {
        assert(pieces(written(list)) =~= seq![seq![]]);
        assert(lines(written(list)) =~= list);
    } else {
        let front = list.drop_last();
        assert(forall|i: int| 0 <= i < front.len() ==> front[i] == #[trigger] list[i]);
        assert(is_record(list[list.len() - 1]));
        written_events_are_read_back(front);
        lemma_written_ends(front);
        added_event_is_last(written(front), list.last());
        assert(front.push(list.last()) =~= list);
    }
}

/// Taking an event back leaves the others: the record that is left has the
/// lines that it had, but for the last.
pub proof fn undo_leaves_the_rest(text: Seq<char>)
    requires
        lines(text).len() > 0,
        forall|i: int| 0 <= i < lines(text).len() ==> is_record(#[trigger] lines(text)[i]),
    ensures
        lines(written(lines(text).drop_last())) == lines(text).drop_last(),
{
    let left = lines(text).drop_last();
    assert(forall|i: int| 0 <= i < left.len() ==> left[i] == #[trigger] lines(text)[i]);
    written_events_are_read_back(left);
}

/// After an event was taken back, the next one that is recorded is again the
/// last line of the record, and the lines that were left stand before it.
pub proof fn events_can_be_added_after_undo(text: Seq<char>, line: Seq<char>)
    requires
        lines(text).len() > 0,
        forall|i: int| 0 <= i < lines(text).len() ==> is_record(#[trigger] lines(text)[i]),
        is_record(line),
    ensures
        lines(written(lines(text).drop_last()) + added(line)) == lines(text).drop_last().push(line),
{
    undo_leaves_the_rest(text);
    lemma_written_ends(lines(text).drop_last());
    added_event_is_last(written(lines(text).drop_last()), line);
}

/// A record to which an event is added is the record of the events and that
/// one, and taking it back leaves the record as it was: so a record that is
/// only ever added to and taken back from stays one that was written.
pub proof fn undo_takes_back_the_last(list: Seq<Seq<char>>, line: Seq<char>)
    requires
        forall|i: int| 0 <= i < list.len() ==> is_record(#[trigger] list[i]),
        is_record(line),
    ensures
        written(list) + added(line) == written(list.push(line)),
        lines(written(list) + added(line)).last() == line,
        written(lines(written(list) + added(line)).drop_last()) == written(list),
{
    let more = list.push(line);
    assert(more.drop_last() =~= list);
    assert forall|i: int| 0 <= i < more.len() implies is_record(#[trigger] more[i]) by {
        if i < list.len() {
            assert(is_record(list[i]));
        }
    }
    written_events_are_read_back(more);
}

/// The history shows a hundred lines at most, and the latest of the record
/// first.
pub proof fn history_shows_the_latest(all: Seq<Seq<char>>)
    ensures
        latest(all).len() <= 100,
        all.len() > 0 ==> latest(all).len() > 0 && latest(all)[0] == all.last(),
        forall|i: int| 0 <= i < latest(all).len() ==> all.contains(#[trigger] latest(all)[i]),
{
    assert forall|i: int| 0 <= i < latest(all).len() implies all.contains(
        #[trigger] latest(all)[i],
    ) by {
        assert(latest(all)[i] == all[all.len() - 1 - i]);
    }
}

/// Every line that the history shows is that of an event that was asked for;
/// if failures were asked for, it is a failure.
pub proof fn history_shows_what_was_asked_for(
    events: Seq<Option<HistoryEvent>>,
    task: Option<Seq<char>>,
    failed: bool,
    i: int,
)
    requires
        0 <= i < wanted_lines(events, task, failed).len(),
    ensures
        exists|j: int|
            0 <= j < events.len() && (#[trigger] events[j]) is Some && is_wanted(
                events[j]->0,
                task,
                failed,
            ) && wanted_lines(events, task, failed)[i] == event_line(events[j]->0),
    decreases events.len(),
{
    if events.len() > 0 {
        let front = events.drop_last();
        let before = wanted_lines(front, task, failed);
        if i < before.len() {
            history_shows_what_was_asked_for(front, task, failed, i);
            let j = choose|j: int|
                0 <= j < front.len() && (#[trigger] front[j]) is Some && is_wanted(
                    front[j]->0,
                    task,
                    failed,
                ) && before[i] == event_line(front[j]->0);
            assert(events[j] == front[j]);
        } else {
            assert(events[events.len() - 1] is Some);
        }
    }
}

/// The history shows the lines of the record from the last one back, each line
/// once and none left out: all of them if there are a hundred at most, so that
/// the record is what is shown in reverse, or the last hundred.
pub proof fn history_goes_back_line_by_line(all: Seq<Seq<char>>, i: int)
    ensures
        all.len() <= 100 ==> latest(all).len() == all.len(),
        all.len() >= 100 ==> latest(all).len() == 100,
        0 <= i < latest(all).len() ==> latest(all)[i] == all[all.len() - 1 - i],
        all.len() <= 100 ==> latest(all).reverse() == all,
        latest(all).reverse() == all.skip(all.len() - latest(all).len()),
{
    assert(latest(all).reverse() =~= all.skip(all.len() - latest(all).len()));
    if all.len() <= 100 {
        assert(latest(all).reverse() =~= all);
    }
}

/// An event that joins the record is shown before all that were shown, and the
/// oldest of these drops out if there were a hundred.
pub proof fn new_events_are_shown_first(all: Seq<Seq<char>>, line: Seq<char>)
    ensures
        all.len() < 100 ==> latest(all.push(line)) == seq![line] + latest(all),
        all.len() >= 100 ==> latest(all.push(line)) == seq![line] + latest(all).drop_last(),
{
    if all.len() < 100 {
        assert(latest(all.push(line)) =~= seq![line] + latest(all));
    } else {
        assert(latest(all.push(line)) =~= seq![line] + latest(all).drop_last());
    }
}

/// An event is wanted if and only if it is a failure or not only failures are
/// asked for, and it is of the task that is asked for or none is.
pub proof fn wanted_events(event: HistoryEvent, task: Option<Seq<char>>, failed: bool)
    ensures
        is_wanted(event, task, failed) <==> (event.level@ == "error"@ || !failed) && (task is None
            || (event.task matches Some(of) && Some(of@) == task)),
        is_wanted(event, None, false),
{
}

/// The lines of the history are those of the wanted events, in the order of the
/// events and each once; what is no event is passed over.
pub proof fn wanted_events_are_shown_in_order(
    events: Seq<Option<HistoryEvent>>,
    event: Option<HistoryEvent>,
    task: Option<Seq<char>>,
    failed: bool,
)
    ensures
        wanted_lines(seq![], task, failed) == Seq::<Seq<char>>::empty(),
        event is None ==> wanted_lines(events.push(event), task, failed) == wanted_lines(
            events,
            task,
            failed,
        ),
        event is Some && !is_wanted(event->0, task, failed) ==> wanted_lines(
            events.push(event),
            task,
            failed,
        ) == wanted_lines(events, task, failed),
        event is Some && is_wanted(event->0, task, failed) ==> wanted_lines(
            events.push(event),
            task,
            failed,
        ) == wanted_lines(events, task, failed).push(event_line(event->0)),
{
    assert(events.push(event).drop_last() =~= events);
}

/// The line of an event tells its time, its level in square brackets and its
/// message, in this order.
pub proof fn event_lines_tell_all(event: HistoryEvent)
    ensures
        event_line(event) == decimal_int(event.ts as int) + seq![' ', '['] + event.level@ + seq![
            ']',
            ' ',
        ] + event.message@,
{
    reveal_strlit(" [");
    reveal_strlit("] ");
    assert(" ["@ =~= seq![' ', '['] && "] "@ =~= seq![']', ' ']);
}

/// A line that ends in a carriage return and a newline is the same as one that
/// ends in a newline, and a last line without either counts.
pub proof fn line_ends_do_not_matter(text: Seq<char>, line: Seq<char>)
    requires
        text.len() == 0 || text.last() == '\n',
        is_record(line),
    ensures
        lines(text + line.push('\n')) == lines(text).push(line),
        lines(text + line.push('\r').push('\n')) == lines(text).push(line),
        lines(text + line) == lines(text).push(line),
        lines(text.push('\n')) == lines(text).push(seq![]),
        lines(text.push('\r').push('\n')) == lines(text).push(seq![]),
        lines(seq![]) == Seq::<Seq<char>>::empty(),
{
    reveal_strlit("\n");
    assert("\n"@ =~= seq!['\n']);
    added_event_is_last(text, line);
    assert(added(line) =~= line.push('\n'));
    lemma_pieces_len(text);
    lemma_last_piece(text);

    let returned = line.push('\r');
    assert forall|i: int| 0 <= i < returned.len() implies returned[i] != '\n' by {
        if i < line.len() {
            assert(line.contains(line[i]));
        }
    }
    lemma_pieces_of_line(text, returned);
    lemma_pieces_of_newline(text + returned);
    let whole = text + returned.push('\n');
    assert(whole =~= text + returned + "\n"@);
    assert(seq![] + returned =~= returned);
    assert(pieces(whole).drop_last() =~= pieces(text).drop_last().push(returned));
    assert(without_return(returned) =~= line);
    assert(ended_lines(whole) =~= ended_lines(text).push(line));

    lemma_pieces_of_line(text, line);
    assert(seq![] + line =~= line);
    assert(pieces(text + line).drop_last() =~= pieces(text).drop_last());
    assert(ended_lines(text + line) =~= ended_lines(text));

    lemma_pieces_of_newline(text);
    assert(text + "\n"@ =~= text.push('\n'));
    let none = Seq::<char>::empty();
    assert(pieces(text.push('\n')).drop_last() =~= pieces(text));
    assert(pieces(text) =~= pieces(text).drop_last().push(none));
    assert(without_return(none) == none);
    assert(ended_lines(text.push('\n')) =~= ended_lines(text).push(none));

    let bare = seq!['\r'];
    assert(!bare.contains('\n'));
    lemma_pieces_of_line(text, bare);
    lemma_pieces_of_newline(text + bare);
    let blank = text.push('\r').push('\n');
    assert(blank =~= text + bare + "\n"@);
    assert(none + bare =~= bare);
    assert(pieces(blank).drop_last() =~= pieces(text).drop_last().push(bare));
    assert(without_return(bare) =~= none);
    assert(ended_lines(blank) =~= ended_lines(text).push(none));
    assert(pieces(none) =~= seq![none]);
    assert(lines(none) =~= seq![]);
}

/// What is added to a record is the line and a newline.
pub proof fn records_end_in_newlines(list: Seq<Seq<char>>, line: Seq<char>)
    ensures
        added(line) == line.push('\n'),
        written(list.push(line)) == written(list) + line.push('\n'),
        written(seq![]) == Seq::<char>::empty(),
{
    reveal_strlit("\n");
    assert("\n"@ =~= seq!['\n']);
    assert(added(line) =~= line.push('\n'));
    assert(list.push(line).drop_last() =~= list);
}

/// A move is taken back if and only if the file is still there: then the folder
/// is made and the file moved back, in this order, before anything is said.
/// Whether or not it is there, one line is said and then the record drops the
/// event, and nothing is done behind that.
pub proof fn undo_moves_back_what_is_there(src: Seq<char>, dest: Seq<char>, dest_exists: bool)
    ensures
        ({
            let steps = undoing(src, dest, dest_exists);
            let n = steps.len() as int;
            &&& dest_exists <==> n == 4
            &&& !dest_exists <==> n == 2
            &&& dest_exists ==> steps[0] == Undoing::MakeParent && steps[1] == Undoing::MoveBack
            &&& steps[n - 2] == Undoing::Say(undo_line(src, dest, dest_exists))
            &&& steps[n - 1] == Undoing::DropRecord
        }),
        undo_line(src, dest, true) == "Moved "@ + dest + " back to "@ + src,
        undo_line(src, dest, false) == "Cannot undo; "@ + dest + " no longer exists."@,
{
}

} // verus!
