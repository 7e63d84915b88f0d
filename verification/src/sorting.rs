//! The rules by which files are sorted: a pattern, an equals sign, and the
//! folder for the files that the pattern fits.

use vstd::prelude::*;
use vstd::string::*;

use crate::number::decimal;
use crate::number::to_decimal;
use crate::text::texts;
use crate::text::{chars_of, find_char, text_between};

verus! {

/// What `glob` answers when a name is held against a pattern: whether the
/// pattern fits, or where the pattern is wrong, and how.
pub uninterp spec fn glob_answer(pattern: Seq<char>, name: Seq<char>) -> Result<
    bool,
    (nat, Seq<char>),
>;

/// Whether no backslash of the two texts is looked at as a separator, which it
/// is on some platforms and not on others: there is none in the pattern, and
/// none in a name that is held against a pattern with a slash.
pub open spec fn is_portable(pattern: Seq<char>, name: Seq<char>) -> bool {
    !pattern.contains('\\') && (pattern.contains('/') ==> !name.contains('\\'))
}

/// Whether all characters of a pattern stand for themselves.
pub open spec fn is_literal(pattern: Seq<char>) -> bool {
    !pattern.contains('?') && !pattern.contains('*') && !pattern.contains('[')
}

/// Whether a pattern is a star with only characters behind it that stand for
/// themselves.
pub open spec fn is_ending(pattern: Seq<char>) -> bool {
    pattern.len() > 0 && pattern[0] == '*' && is_literal(pattern.skip(1))
}

/// The answer that a pattern fits, or that it does not.
pub open spec fn fit(fits: bool) -> Result<bool, (nat, Seq<char>)> {
    Ok(fits)
}

/// An answer, with the text in it as a sequence.
pub open spec fn answer_of(r: Result<bool, (usize, String)>) -> Result<bool, (nat, Seq<char>)> {
    match r {
        Ok(fits) => Ok(fits),
        Err((pos, msg)) => Err((pos as nat, msg@)),
    }
}

/// Holds a name against a pattern, by `glob::Pattern::new` and
/// `glob::Pattern::matches`; an error of the former is taken apart into its
/// position and its message. Where the pattern has a backslash, or the pattern
/// has a slash and the name a backslash, the platform has a say in the answer,
/// and nothing is claimed of it. Elsewhere the answer depends on the two texts
/// alone; a pattern without special characters fits the name that
/// is equal to it, and a star before such characters fits the names that end in
/// them.
#[verifier::external_body]
fn glob_fits(pattern: &str, name: &str) -> (r: Result<bool, (usize, String)>)
    ensures
        is_portable(pattern@, name@) ==> answer_of(r) == glob_answer(pattern@, name@),
        is_portable(pattern@, name@) && is_literal(pattern@) ==> answer_of(r) == fit(pattern@ == name@),
        is_portable(pattern@, name@) && is_ending(pattern@) ==> answer_of(r) == fit(pattern@.skip(1).is_suffix_of(name@)),
{
    match glob::Pattern::new(pattern) {
        Ok(p) => Ok(p.matches(name)),
        Err(e) => Err((e.pos, e.msg.to_owned())),
    }
}

/// The pattern and the folder of a rule: what stands before its first equals
/// sign, and what stands behind it.
pub open spec fn rule_parts(rule: Seq<char>) -> Option<(Seq<char>, Seq<char>)> {
    if rule.contains('=') {
        let i = rule.index_of_first('=')->0;
        Some((rule.take(i), rule.skip(i + 1)))
    } else {
        None
    }
}

/// Takes a rule apart at its first equals sign.
pub fn split_rule(rule: &str) -> (r: Option<(String, String)>)
    ensures
        match rule_parts(rule@) {
            Some((pattern, dest)) => r matches Some((p, d)) && p@ == pattern && d@ == dest,
            None => r is None,
        },
{
    let chars = chars_of(rule);
    match find_char(&chars, '=') {
        Some(i) => {
            proof {
                assert(rule@.contains('=')) by {
                    assert(rule@[i as int] == '=');
                }
                rule@.index_of_first_ensures('=');
                let k = rule@.index_of_first('=')->0;
                if k < i {
                    assert(rule@.take(i as int)[k] == '=');
                    assert(rule@.take(i as int).contains('='));
                }
                assert(k == i);
            }
            let n: usize = chars.len();
            let pattern = text_between(&chars, 0, i);
            let dest = text_between(&chars, i + 1, n);
            assert(pattern@ =~= rule@.take(i as int));
            assert(dest@ =~= rule@.skip(i + 1));
            Some((pattern, dest))
        },
        None => None,
    }
}

/// Why no rule could be chosen.
#[derive(Clone, Debug)]
pub enum SortError {
    /// The rule has no equals sign.
    BadRule(String),
    /// The pattern of a rule is wrong at the given position.
    BadPattern { pos: usize, msg: String },
}

impl SortError {
    /// What [`SortError::message`] says.
    pub open spec fn message_text(self) -> Seq<char> {
        match self {
            SortError::BadRule(rule) => "invalid rule "@ + rule@
                + ", expected pattern=destination"@,
            SortError::BadPattern { pos, msg } => "Pattern syntax error near position "@ + decimal(
                pos as nat,
            ) + ": "@ + msg@,
        }
    }

    /// The error as text.
    pub fn message(&self) -> (r: String)
        ensures
            r@ == self.message_text(),
    {
        match self {
            SortError::BadRule(rule) => {
                let mut out = "invalid rule ".to_owned();
                out.append(rule.as_str());
                out.append(", expected pattern=destination");
                out
            },
            SortError::BadPattern { pos, msg } => {
                let mut out = "Pattern syntax error near position ".to_owned();
                out.append(to_decimal(*pos as u128).as_str());
                out.append(": ");
                out.append(msg.as_str());
                out
            },
        }
    }
}

/// What comes of a list of rules.
pub enum Sorted {
    /// No rule fits.
    Stays,
    /// The first rule that fits sends the file to this folder.
    GoesTo(Seq<char>),
    /// This rule has no equals sign.
    Malformed(Seq<char>),
    /// The pattern of a rule is wrong at this position, in this way.
    Mistaken(nat, Seq<char>),
}

/// What comes of a list of rules, when `answers` holds for each of them what
/// its pattern says of the name. Rules are tried in order, up to the first that
/// fits or is wrong.
pub open spec fn sorted(rules: Seq<Seq<char>>, answers: Seq<Result<bool, (nat, Seq<char>)>>) -> Sorted
    decreases rules.len(),
{
    if rules.len() == 0 {
        Sorted::Stays
    } else {
        match rule_parts(rules[0]) {
            None => Sorted::Malformed(rules[0]),
            Some((_, dest)) => match answers[0] {
                Err((pos, msg)) => Sorted::Mistaken(pos, msg),
                Ok(true) => Sorted::GoesTo(dest),
                Ok(false) => sorted(rules.drop_first(), answers.drop_first()),
            },
        }
    }
}

/// Whether a result says what came of the rules.
pub open spec fn says_sorted(r: Result<Option<String>, SortError>, s: Sorted) -> bool {
    match s {
        Sorted::Stays => r is Ok && r->Ok_0 is None,
        Sorted::GoesTo(dest) => r is Ok && r->Ok_0 is Some && r->Ok_0->0@ == dest,
        Sorted::Malformed(rule) => r is Err && (r->Err_0 matches SortError::BadRule(bad) && bad@
            == rule),
        Sorted::Mistaken(at, what) => r is Err && (r->Err_0 matches SortError::BadPattern {
            pos,
            msg,
        } && pos == at && msg@ == what),
    }
}

/// The answers, with the texts in them as sequences.
pub open spec fn answers_of(answers: Seq<Result<bool, (usize, String)>>) -> Seq<
    Result<bool, (nat, Seq<char>)>,
> {
    answers.map_values(|r: Result<bool, (usize, String)>| answer_of(r))
}

/// Rules that do not fit are passed over.
proof fn lemma_passed_over(
    rules: Seq<Seq<char>>,
    answers: Seq<Result<bool, (nat, Seq<char>)>>,
    k: int,
)
    requires
        0 <= k <= rules.len(),
        rules.len() == answers.len(),
        forall|i: int|
            0 <= i < k ==> rule_parts(#[trigger] rules[i]) is Some && answers[i] == fit(false),
    ensures
        sorted(rules, answers) == sorted(rules.skip(k), answers.skip(k)),
    decreases k,
{
    if k == 0 {
        assert(rules.skip(0) =~= rules);
        assert(answers.skip(0) =~= answers);
    } else {
        let r1 = rules.drop_first();
        let a1 = answers.drop_first();
        assert(rule_parts(rules[0]) is Some);
        assert forall|i: int| 0 <= i < k - 1 implies rule_parts(#[trigger] r1[i]) is Some && a1[i]
            == fit(false) by {
            assert(r1[i] == rules[i + 1]);
            assert(a1[i] == answers[i + 1]);
        }
        lemma_passed_over(r1, a1, k - 1);
        assert(r1.skip(k - 1) =~= rules.skip(k));
        assert(a1.skip(k - 1) =~= answers.skip(k));
    }
}

/// The folder that the first fitting rule sends a file to, when the answers of
/// all patterns are known.
pub fn choose_rule(
    rules: &Vec<String>,
    answers: &Vec<Result<bool, (usize, String)>>,
) -> (r: Result<Option<String>, SortError>)
    requires
        rules@.len() == answers@.len(),
    ensures
        says_sorted(r, sorted(texts(rules@), answers_of(answers@))),
{
    let ghost all = texts(rules@);
    let ghost said = answers_of(answers@);
    let mut i: usize = 0;
    while i < rules.len()
        invariant
            i <= rules@.len(),
            rules@.len() == answers@.len(),
            all == texts(rules@),
            said == answers_of(answers@),
            forall|j: int|
                0 <= j < i ==> rule_parts(#[trigger] all[j]) is Some && said[j] == fit(false),
        decreases rules.len() - i,
    {
        proof {
            lemma_passed_over(all, said, i as int);
            assert(all.skip(i as int)[0] == rules@[i as int]@);
            assert(said.skip(i as int)[0] == answer_of(answers@[i as int]));
        }
        match split_rule(rules[i].as_str()) {
            None => {
                return Err(SortError::BadRule(rules[i].clone()));
            },
            Some((_, dest)) => match &answers[i] {
                Err((pos, msg)) => {
                    return Err(SortError::BadPattern { pos: *pos, msg: msg.clone() });
                },
                Ok(fits) => {
                    if *fits {
                        return Ok(Some(dest));
                    }
                },
            },
        }
        i = i + 1;
    }
    proof {
        lemma_passed_over(all, said, i as int);
    }
    Ok(None)
}

/// Whether `answer` is one that `glob` gives for the pattern of a rule.
pub open spec fn is_answer(
    name: Seq<char>,
    rule: Seq<char>,
    answer: Result<bool, (nat, Seq<char>)>,
) -> bool {
    match rule_parts(rule) {
        Some((pattern, _)) => is_portable(pattern, name) ==> {
            &&& answer == glob_answer(pattern, name)
            &&& is_literal(pattern) ==> answer == fit(pattern == name)
            &&& is_ending(pattern) ==> answer == fit(pattern.skip(1).is_suffix_of(name))
        },
        None => true,
    }
}

/// Whether the answers are such as `glob` gives for the patterns of the rules.
pub open spec fn is_answered(
    name: Seq<char>,
    rules: Seq<Seq<char>>,
    answers: Seq<Result<bool, (nat, Seq<char>)>>,
) -> bool {
    &&& answers.len() == rules.len()
    &&& forall|i: int| 0 <= i < rules.len() ==> is_answer(name, #[trigger] rules[i], answers[i])
}

/// The folder that the first fitting rule sends the file `name` to. What a
/// pattern with a backslash says, and one with a slash of a name with a
/// backslash, the platform decides.
pub fn sort_target(name: &str, rules: &Vec<String>) -> (r: Result<Option<String>, SortError>)
    ensures
        exists|answers: Seq<Result<bool, (nat, Seq<char>)>>|
            #![trigger sorted(texts(rules@), answers)]
            is_answered(name@, texts(rules@), answers) && says_sorted(
                r,
                sorted(texts(rules@), answers),
            ),
{
    let mut answers: Vec<Result<bool, (usize, String)>> = Vec::new();
    let ghost all = texts(rules@);
    let mut i: usize = 0;
    while i < rules.len()
        invariant
            i <= rules@.len(),
            answers@.len() == i,
            all == texts(rules@),
            is_answered(name@, all.take(i as int), answers_of(answers@)),
        decreases rules.len() - i,
    {
        let ghost before = answers_of(answers@);
        let answer = match split_rule(rules[i].as_str()) {
            Some((pattern, _)) => glob_fits(pattern.as_str(), name),
            None => Ok(false),
        };
        answers.push(answer);
        proof {
            let after = answers_of(answers@);
            let rules_after = all.take(i + 1);
            assert(after =~= before.push(answer_of(answer)));
            assert forall|j: int| 0 <= j < i + 1 implies is_answer(
                name@,
                #[trigger] rules_after[j],
                after[j],
            ) by {
                if j < i {
                    assert(rules_after[j] == all.take(i as int)[j]);
                }
            }
        }
        i = i + 1;
    }
    assert(all.take(i as int) =~= all);
    let r = choose_rule(rules, &answers);
    assert(says_sorted(r, sorted(all, answers_of(answers@))));
    r
}

/// Where the platform has no say, a name and the rules determine what comes of
/// them.
pub proof fn sorting_is_determined(
    name: Seq<char>,
    rules: Seq<Seq<char>>,
    a: Seq<Result<bool, (nat, Seq<char>)>>,
    b: Seq<Result<bool, (nat, Seq<char>)>>,
)
    requires
        is_answered(name, rules, a),
        is_answered(name, rules, b),
        forall|i: int|
            0 <= i < rules.len() ==> (rule_parts(#[trigger] rules[i]) matches Some((pattern, _))
                ==> is_portable(pattern, name)),
    ensures
        sorted(rules, a) == sorted(rules, b),
    decreases rules.len(),
{
    if rules.len() > 0 {
        let rest = rules.drop_first();
        lemma_answered_rest(name, rules, a);
        lemma_answered_rest(name, rules, b);
        assert(rule_parts(rules[0]) matches Some((pattern, _)) ==> is_portable(pattern, name));
        assert forall|i: int| 0 <= i < rest.len() implies (rule_parts(
            #[trigger] rest[i],
        ) matches Some((pattern, _)) ==> is_portable(pattern, name)) by {
            assert(rest[i] == rules[i + 1]);
        }
        sorting_is_determined(name, rest, a.drop_first(), b.drop_first());
    }
}

proof fn lemma_answered_rest(
    name: Seq<char>,
    rules: Seq<Seq<char>>,
    answers: Seq<Result<bool, (nat, Seq<char>)>>,
)
    requires
        is_answered(name, rules, answers),
        rules.len() > 0,
    ensures
        is_answered(name, rules.drop_first(), answers.drop_first()),
{
    let rest = rules.drop_first();
    assert(forall|i: int| 0 <= i < rest.len() ==> #[trigger] rest[i] == rules[i + 1]);
}

/// A rule for an ending sends every name with that ending to its folder, if it
/// is the first rule.
pub proof fn ending_rule_catches(
    name: Seq<char>,
    rules: Seq<Seq<char>>,
    answers: Seq<Result<bool, (nat, Seq<char>)>>,
    ending: Seq<char>,
    dest: Seq<char>,
)
    requires
        rules.len() > 0,
        is_answered(name, rules, answers),
        rule_parts(rules[0]) == Some((seq!['*'] + ending, dest)),
        is_literal(ending),
        is_portable(ending, name),
        ending.is_suffix_of(name),
    ensures
        sorted(rules, answers) == Sorted::GoesTo(dest),
{
    let pattern = seq!['*'] + ending;
    assert(pattern.skip(1) =~= ending);
    assert forall|i: int| 0 < i < pattern.len() implies ending.contains(#[trigger] pattern[i]) by {
        assert(ending[i - 1] == pattern[i]);
    }
    assert(pattern[0] == '*');
}

/// Once a rule has decided, the rules behind it have no say.
pub proof fn later_rules_have_no_say(
    rules: Seq<Seq<char>>,
    answers: Seq<Result<bool, (nat, Seq<char>)>>,
    more: Seq<Seq<char>>,
    more_answers: Seq<Result<bool, (nat, Seq<char>)>>,
)
    requires
        rules.len() == answers.len(),
        sorted(rules, answers) != Sorted::Stays,
    ensures
        sorted(rules + more, answers + more_answers) == sorted(rules, answers),
    decreases rules.len(),
{
    if rules.len() > 0 {
        let all = rules + more;
        let said = answers + more_answers;
        assert(all[0] == rules[0] && said[0] == answers[0]);
        if rule_parts(rules[0]) is Some && answers[0] == fit(false) {
            later_rules_have_no_say(rules.drop_first(), answers.drop_first(), more, more_answers);
            assert(all.drop_first() =~= rules.drop_first() + more);
            assert(said.drop_first() =~= answers.drop_first() + more_answers);
        }
    }
}

/// A rule is its pattern, an equals sign and its folder: the first equals sign
/// parts them, and a text without one is no rule.
pub proof fn rules_are_parted_at_the_first_equals_sign(pattern: Seq<char>, dest: Seq<char>)
    requires
        !pattern.contains('='),
    ensures
        rule_parts(pattern.push('=') + dest) == Some((pattern, dest)),
        rule_parts(pattern) is None,
{
    let rule = pattern.push('=') + dest;
    let n = pattern.len() as int;
    assert(rule[n] == '=');
    rule.index_of_first_ensures('=');
    let k = rule.index_of_first('=')->0;
    if k < n {
        assert(pattern[k] == '=');
        assert(pattern.contains(pattern[k]));
    }
    assert(rule.take(n) =~= pattern);
    assert(rule.skip(n + 1) =~= dest);
}

/// Rules are tried one after the other: one that fits decides on its folder,
/// one that does not leaves it to the rest, and one that is wrong decides that
/// the file is not sorted at all.
pub proof fn rules_are_tried_in_order(
    rule: Seq<char>,
    rules: Seq<Seq<char>>,
    answer: Result<bool, (nat, Seq<char>)>,
    answers: Seq<Result<bool, (nat, Seq<char>)>>,
)
    ensures
        ({
            let s = sorted(seq![rule] + rules, seq![answer] + answers);
            &&& rule_parts(rule) is None ==> s == Sorted::Malformed(rule)
            &&& rule_parts(rule) matches Some((_, dest)) ==> match answer {
                Ok(true) => s == Sorted::GoesTo(dest),
                Ok(false) => s == sorted(rules, answers),
                Err((pos, msg)) => s == Sorted::Mistaken(pos, msg),
            }
        }),
        sorted(seq![], answers) == Sorted::Stays,
{
    assert((seq![rule] + rules).drop_first() =~= rules);
    assert((seq![answer] + answers).drop_first() =~= answers);
}

/// What is answered says what came of the rules: nothing, the folder, the rule
/// that is none, or where a pattern is wrong and how; no answer says two of
/// these.
pub proof fn answers_say_what_came_of_the_rules(
    r: Result<Option<String>, SortError>,
    s: Sorted,
    t: Sorted,
)
    requires
        says_sorted(r, s),
        says_sorted(r, t),
    ensures
        s == t,
        r is Err <==> s is Malformed || s is Mistaken,
        r matches Ok(Some(dest)) ==> s == Sorted::GoesTo(dest@),
        r matches Ok(None) ==> s == Sorted::Stays,
{
}

/// A pattern stands for itself if it has none of the characters that stand for
/// others, and for an ending if it has a star before such characters.
pub proof fn patterns_with_special_characters(pattern: Seq<char>, i: int)
    ensures
        is_literal(pattern) && 0 <= i < pattern.len() ==> pattern[i] != '*' && pattern[i] != '?'
            && pattern[i] != '[',
        is_literal(pattern) ==> is_ending(seq!['*'] + pattern),
        !is_literal(pattern) <==> pattern.contains('*') || pattern.contains('?')
            || pattern.contains('['),
        is_ending(pattern) ==> pattern[0] == '*' && is_literal(pattern.skip(1)),
{
    if 0 <= i < pattern.len() {
        assert(pattern.contains(pattern[i]));
    }
    assert((seq!['*'] + pattern).skip(1) =~= pattern);
}

} // verus!
