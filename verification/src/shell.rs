//! Commands to be run, and text quoted for the shells that run some of them.

use vstd::prelude::*;
use vstd::string::*;

use crate::text::{replaced, texts};
use crate::text::replace_char;

verus! {

/// A program and its arguments.
#[derive(Clone, Debug)]
pub struct CommandLine {
    pub program: String,
    pub args: Vec<String>,
}

impl CommandLine {
    /// The words of the command: the program, then its arguments.
    pub open spec fn words(self) -> Seq<Seq<char>> {
        seq![self.program@] + texts(self.args@)
    }
}

/// `s` as it stands between single quotes.
pub open spec fn single_quoted(s: Seq<char>) -> Seq<char> {
    replaced(s, '\'', "'\"'\"'"@)
}

/// Makes a text fit to stand between single quotes on a line for the shell.
pub fn single_quote_for_shell(input: &str) -> (r: String)
    ensures
        r@ == single_quoted(input@),
{
    replace_char(input, '\'', "'\"'\"'")
}

/// The quotes that a character of a line stands in.
pub enum Quote {
    Bare,
    Single,
    Double,
}

/// How far a shell has come in reading a line: the words that are complete,
/// the one that it has begun, and the quotes that are open.
pub struct Reading {
    pub done: Seq<Seq<char>>,
    pub word: Option<Seq<char>>,
    pub quote: Quote,
}

/// Whether `c` stands for itself outside quotes. Only characters of which that
/// is certain are counted.
pub open spec fn is_bare(c: char) -> bool {
    'a' <= c <= 'z' || 'A' <= c <= 'Z' || '0' <= c <= '9' || c == '-'
}

/// Whether `c` stands for itself between double quotes.
pub open spec fn is_weak(c: char) -> bool {
    c != '"' && c != '$' && c != '`' && c != '\\'
}

/// The word begun so far, which is empty if none is.
pub open spec fn begun(r: Reading) -> Seq<char> {
    match r.word {
        Some(w) => w,
        None => seq![],
    }
}

/// How a POSIX shell reads one more character. There is no answer for a
/// character that does more than stand for itself, part words or quote.
pub open spec fn read_char(r: Reading, c: char) -> Option<Reading> {
    match r.quote {
        Quote::Bare => if c == ' ' {
            Some(
                Reading {
                    done: match r.word {
                        Some(w) => r.done.push(w),
                        None => r.done,
                    },
                    word: None,
                    quote: Quote::Bare,
                },
            )
        } else if c == '\'' {
            Some(Reading { word: Some(begun(r)), quote: Quote::Single, ..r })
        } else if c == '"' {
            Some(Reading { word: Some(begun(r)), quote: Quote::Double, ..r })
        } else if is_bare(c) {
            Some(Reading { word: Some(begun(r).push(c)), ..r })
        } else {
            None
        },
        Quote::Single => if c == '\'' {
            Some(Reading { quote: Quote::Bare, ..r })
        } else {
            Some(Reading { word: Some(begun(r).push(c)), ..r })
        },
        Quote::Double => if c == '"' {
            Some(Reading { quote: Quote::Bare, ..r })
        } else if is_weak(c) {
            Some(Reading { word: Some(begun(r).push(c)), ..r })
        } else {
            None
        },
    }
}

/// How a POSIX shell goes on reading a line.
pub open spec fn read_on(r: Option<Reading>, line: Seq<char>) -> Option<Reading>
    decreases line.len(),
{
    if line.len() == 0 {
        r
    } else {
        match read_on(r, line.drop_last()) {
            Some(before) => read_char(before, line.last()),
            None => None,
        }
    }
}

/// The words that a POSIX shell finds on a line, where this module can tell.
pub open spec fn shell_words(line: Seq<char>) -> Option<Seq<Seq<char>>> {
    match read_on(Some(Reading { done: seq![], word: None, quote: Quote::Bare }), line) {
        Some(Reading { done, word, quote: Quote::Bare }) => match word {
            Some(w) => Some(done.push(w)),
            None => Some(done),
        },
        _ => None,
    }
}

/// A line is read part by part.
pub proof fn lemma_read_parts(r: Option<Reading>, a: Seq<char>, b: Seq<char>)
    ensures
        read_on(r, a + b) == read_on(read_on(r, a), b),
    decreases b.len(),
{
    if b.len() == 0 {
        assert(a + b =~= a);
    } else {
        assert((a + b).drop_last() =~= a + b.drop_last());
        lemma_read_parts(r, a, b.drop_last());
    }
}

/// One character is read as a line of its own.
pub proof fn lemma_read_one(r: Reading, c: char)
    ensures
        read_on(Some(r), seq![c]) == read_char(r, c),
{
    assert(seq![c].drop_last() =~= seq![]);
    assert(read_on(Some(r), seq![]) == Some(r));
}

/// Text that stands for itself where it stands is added to the word.
pub proof fn lemma_read_text(r: Reading, s: Seq<char>)
    requires
        r.word is Some,
        match r.quote {
            Quote::Bare => forall|i: int| 0 <= i < s.len() ==> is_bare(#[trigger] s[i]),
            Quote::Single => !s.contains('\''),
            Quote::Double => forall|i: int| 0 <= i < s.len() ==> is_weak(#[trigger] s[i]),
        },
    ensures
        read_on(Some(r), s) == Some(Reading { word: Some(r.word->0 + s), ..r }),
    decreases s.len(),
{
    if s.len() == 0 {
        assert(r.word->0 + s =~= r.word->0);
    } else {
        let front = s.drop_last();
        if r.quote is Single {
            assert forall|i: int| 0 <= i < front.len() implies front[i] != '\'' by {
                assert(s[i] == front[i]);
                assert(s.contains(s[i]));
            }
            assert(s.contains(s.last()));
        } else {
            assert(forall|i: int| 0 <= i < front.len() ==> front[i] == #[trigger] s[i]);
        }
        lemma_read_text(r, front);
        assert(r.word->0 + s =~= (r.word->0 + front).push(s.last()));
    }
}

/// Text that was quoted is added, as it was, to a word between single quotes.
pub proof fn lemma_read_quoted(r: Reading, s: Seq<char>)
    requires
        r.quote is Single,
        r.word is Some,
    ensures
        read_on(Some(r), single_quoted(s)) == Some(Reading { word: Some(r.word->0 + s), ..r }),
    decreases s.len(),
{
    reveal_strlit("'\"'\"'");
    if s.len() == 0 {
        assert(r.word->0 + s =~= r.word->0);
    } else {
        let front = s.drop_last();
        let c = s.last();
        lemma_read_quoted(r, front);
        let w = r.word->0 + front;
        let r0 = Reading { word: Some(w), ..r };
        assert(r.word->0 + s =~= w.push(c));
        if c == '\'' {
            let q = "'\"'\"'"@;
            assert(q =~= seq!['\'', '"', '\'', '"', '\'']);
            lemma_read_parts(Some(r), single_quoted(front), q);
            let r1 = Reading { quote: Quote::Bare, ..r0 };
            let r2 = Reading { quote: Quote::Double, ..r0 };
            let r3 = Reading { word: Some(w.push(c)), quote: Quote::Double, ..r0 };
            let r4 = Reading { word: Some(w.push(c)), quote: Quote::Bare, ..r0 };
            let r5 = Reading { word: Some(w.push(c)), ..r0 };
            lemma_read_one(r0, '\'');
            lemma_read_one(r1, '"');
            lemma_read_one(r2, '\'');
            lemma_read_one(r3, '"');
            lemma_read_one(r4, '\'');
            assert(q =~= seq!['\''] + (seq!['"'] + (seq!['\''] + (seq!['"'] + seq!['\'']))));
            lemma_read_parts(
                Some(r0),
                seq!['\''],
                seq!['"'] + (seq!['\''] + (seq!['"'] + seq!['\''])),
            );
            lemma_read_parts(Some(r1), seq!['"'], seq!['\''] + (seq!['"'] + seq!['\'']));
            lemma_read_parts(Some(r2), seq!['\''], seq!['"'] + seq!['\'']);
            lemma_read_parts(Some(r3), seq!['"'], seq!['\'']);
            assert(read_on(Some(r0), q) == Some(r5));
        } else {
            lemma_read_parts(Some(r), single_quoted(front), seq![c]);
            lemma_read_one(r0, c);
        }
    }
}

/// A shell between two words.
pub open spec fn between(done: Seq<Seq<char>>) -> Reading {
    Reading { done, word: None, quote: Quote::Bare }
}

/// A shell inside a word, between single quotes.
pub open spec fn quoting(done: Seq<Seq<char>>, word: Seq<char>) -> Reading {
    Reading { done, word: Some(word), quote: Quote::Single }
}

/// Whether a word needs no quotes.
pub open spec fn is_bare_word(w: Seq<char>) -> bool {
    w.len() > 0 && forall|i: int| 0 <= i < w.len() ==> is_bare(#[trigger] w[i])
}

/// A word without quotes is begun and read to its end.
pub proof fn lemma_read_bare(done: Seq<Seq<char>>, w: Seq<char>)
    requires
        is_bare_word(w),
    ensures
        read_on(Some(between(done)), w) == Some(
            Reading { done, word: Some(w), quote: Quote::Bare },
        ),
    decreases w.len(),
{
    let front = w.drop_last();
    if front.len() == 0 {
        assert(w =~= seq![w[0]]);
        lemma_read_one(between(done), w[0]);
        assert(Seq::<char>::empty().push(w[0]) =~= w);
    } else {
        assert(forall|i: int| 0 <= i < front.len() ==> front[i] == #[trigger] w[i]);
        lemma_read_bare(done, front);
        assert(front.push(w.last()) =~= w);
    }
}

/// A word without quotes ends at a blank.
pub proof fn lemma_read_word(done: Seq<Seq<char>>, w: Seq<char>)
    requires
        is_bare_word(w),
    ensures
        read_on(Some(between(done)), w + seq![' ']) == Some(between(done.push(w))),
{
    lemma_read_bare(done, w);
    lemma_read_parts(Some(between(done)), w, seq![' ']);
    lemma_read_one(Reading { done, word: Some(w), quote: Quote::Bare }, ' ');
}

/// A word begins at a single quote.
pub proof fn lemma_open_quote(done: Seq<Seq<char>>)
    ensures
        read_on(Some(between(done)), seq!['\'']) == Some(quoting(done, seq![])),
{
    lemma_read_one(between(done), '\'');
}

/// One quoted word ends and the next begins.
pub proof fn lemma_next_quoted(done: Seq<Seq<char>>, w: Seq<char>)
    ensures
        read_on(Some(quoting(done, w)), seq!['\'', ' ', '\'']) == Some(
            quoting(done.push(w), seq![]),
        ),
{
    let closed = Reading { done, word: Some(w), quote: Quote::Bare };
    lemma_read_one(quoting(done, w), '\'');
    lemma_read_one(closed, ' ');
    lemma_open_quote(done.push(w));
    assert(seq!['\'', ' ', '\''] =~= seq!['\''] + (seq![' '] + seq!['\'']));
    lemma_read_parts(Some(quoting(done, w)), seq!['\''], seq![' '] + seq!['\'']);
    lemma_read_parts(Some(closed), seq![' '], seq!['\'']);
}

/// A text that was quoted, between single quotes, is one word to a shell: the
/// text itself, whatever characters it holds.
pub proof fn quoting_is_undone(s: Seq<char>)
    ensures
        shell_words(seq!['\''] + single_quoted(s) + seq!['\'']) == Some(seq![s]),
{
    let start = Reading { done: seq![], word: None, quote: Quote::Bare };
    let opened = Reading { done: seq![], word: Some(seq![]), quote: Quote::Single };
    let read = Reading { done: seq![], word: Some(s), quote: Quote::Single };
    lemma_read_one(start, '\'');
    lemma_read_parts(Some(start), seq!['\''], single_quoted(s));
    lemma_read_quoted(opened, s);
    assert(seq![] + s =~= s);
    lemma_read_parts(Some(start), seq!['\''] + single_quoted(s), seq!['\'']);
    lemma_read_one(read, '\'');
    assert(Seq::<Seq<char>>::empty().push(s) =~= seq![s]);
}

} // verus!
