//! The reader of lines as a state machine that takes one scalar value at a
//! time, and the proof that running it reads a line as the grammar says.

use crate::event::{
    body_event, message_event, parse_event, prefixed_event, token_event, EventModel,
};
use crate::text::{first_index, lemma_first_index_bounds, lemma_first_index_is, span_is, trim_end};
use vstd::prelude::*;

verus! {

/// Where the reader stands in a line, with the positions found so far:
/// `marker` is where the prefix marker `:` stands, `bang` where the `!`
/// behind the author's name stands, `verb_start` where the verb starts.
#[derive(Clone, Copy, Debug)]
pub enum ParsingState {
    Start,
    Tags,
    UserName { marker: usize },
    AdditionalUserInfo { marker: usize, bang: usize },
    MessageToken { marker: usize, bang: usize, verb_start: usize },
    Channel { marker: usize, bang: usize },
    MessageBody { marker: usize, bang: usize },
}

/// What one step decides: to read on, to give up, or what the line tells.
#[derive(Clone, Copy, Debug)]
pub enum Step {
    Next(ParsingState),
    Fail,
    Join { marker: usize, bang: usize },
    Part { marker: usize, bang: usize },
    Body { marker: usize, bang: usize, from: usize },
}

/// The step that the machine takes in `state` on the scalar value at `i`.
pub open spec fn step_of(state: ParsingState, line: Seq<char>, i: int) -> Step {
    let c = line[i];
    match state {
        ParsingState::Start => if c == '@' {
            Step::Next(ParsingState::Tags)
        } else if c == ':' {
            Step::Next(ParsingState::UserName { marker: 0 })
        } else {
            Step::Fail
        },
        ParsingState::Tags => if c == ' ' {
            Step::Next(ParsingState::UserName { marker: (i + 1) as usize })
        } else {
            Step::Next(state)
        },
        ParsingState::UserName { marker } => if i == marker {
            if c == ':' {
                Step::Next(state)
            } else {
                Step::Fail
            }
        } else if c == ' ' || (c == '!' && i == marker + 1) {
            Step::Fail
        } else if c == '!' {
            Step::Next(ParsingState::AdditionalUserInfo { marker, bang: i as usize })
        } else {
            Step::Next(state)
        },
        ParsingState::AdditionalUserInfo { marker, bang } => if c == ' ' {
            Step::Next(ParsingState::MessageToken { marker, bang, verb_start: (i + 1) as usize })
        } else {
            Step::Next(state)
        },
        ParsingState::MessageToken { marker, bang, verb_start } => if c == ' ' {
            let verb = line.subrange(verb_start as int, i);
            if verb == "PRIVMSG"@ {
                Step::Next(ParsingState::Channel { marker, bang })
            } else if verb == "JOIN"@ {
                Step::Join { marker, bang }
            } else if verb == "PART"@ {
                Step::Part { marker, bang }
            } else {
                Step::Fail
            }
        } else {
            Step::Next(state)
        },
        ParsingState::Channel { marker, bang } => if c == ':' {
            Step::Next(ParsingState::MessageBody { marker, bang })
        } else {
            Step::Next(state)
        },
        ParsingState::MessageBody { marker, bang } => Step::Body { marker, bang, from: i as usize },
    }
}

/// The positions that a state holds lie in order before the cursor `i`.
pub open spec fn in_order(state: ParsingState, i: int) -> bool {
    match state {
        ParsingState::Start => i == 0,
        ParsingState::Tags => 1 <= i,
        ParsingState::UserName { marker } => marker <= i && 1 <= i,
        ParsingState::AdditionalUserInfo { marker, bang } => marker + 1 < bang < i,
        ParsingState::MessageToken { marker, bang, verb_start } => marker + 1 < bang < verb_start
            <= i,
        ParsingState::Channel { marker, bang } => marker + 1 < bang < i,
        ParsingState::MessageBody { marker, bang } => marker + 1 < bang < i,
    }
}

/// The positions that a step hands on lie in order, up to the cursor `i`.
pub open spec fn step_in_order(step: Step, i: int) -> bool {
    match step {
        Step::Next(state) => in_order(state, i + 1),
        Step::Fail => true,
        Step::Join { marker, bang } => marker + 1 < bang < i,
        Step::Part { marker, bang } => marker + 1 < bang < i,
        Step::Body { marker, bang, from } => marker + 1 < bang < i && from == i,
    }
}

/// Takes one step: reads the scalar value at `i` in `state`.
pub fn step(state: ParsingState, chars: &Vec<char>, i: usize) -> (next: Step)
    requires
        i < chars.len(),
        in_order(state, i as int),
    ensures
        next == step_of(state, chars@, i as int),
        step_in_order(next, i as int),
{
    let c: char = chars[i];
    match state {
        ParsingState::Start => {
            if c == '@' {
                Step::Next(ParsingState::Tags)
            } else if c == ':' {
                Step::Next(ParsingState::UserName { marker: 0 })
            } else {
                Step::Fail
            }
        },
        ParsingState::Tags => {
            if c == ' ' {
                Step::Next(ParsingState::UserName { marker: i + 1 })
            } else {
                Step::Next(state)
            }
        },
        ParsingState::UserName { marker } => {
            if i == marker {
                if c == ':' {
                    Step::Next(state)
                } else {
                    Step::Fail
                }
            } else if c == ' ' || (c == '!' && i == marker + 1) {
                Step::Fail
            } else if c == '!' {
                Step::Next(ParsingState::AdditionalUserInfo { marker, bang: i })
            } else {
                Step::Next(state)
            }
        },
        ParsingState::AdditionalUserInfo { marker, bang } => {
            if c == ' ' {
                Step::Next(ParsingState::MessageToken { marker, bang, verb_start: i + 1 })
            } else {
                Step::Next(state)
            }
        },
        ParsingState::MessageToken { marker, bang, verb_start } => {
            if c != ' ' {
                Step::Next(state)
            } else if span_is(chars, verb_start, i, "PRIVMSG") {
                Step::Next(ParsingState::Channel { marker, bang })
            } else if span_is(chars, verb_start, i, "JOIN") {
                Step::Join { marker, bang }
            } else if span_is(chars, verb_start, i, "PART") {
                Step::Part { marker, bang }
            } else {
                Step::Fail
            }
        },
        ParsingState::Channel { marker, bang } => {
            if c == ':' {
                Step::Next(ParsingState::MessageBody { marker, bang })
            } else {
                Step::Next(state)
            }
        },
        ParsingState::MessageBody { marker, bang } => Step::Body { marker, bang, from: i },
    }
}

/// Where the machine ends when it reads `line` on from `i` in `state`. A
/// line that ends before the machine has decided gives `Fail`.
pub open spec fn run(line: Seq<char>, state: ParsingState, i: int) -> Step
    decreases line.len() - i,
{
    if i < 0 || i >= line.len() {
        Step::Fail
    } else {
        match step_of(state, line, i) {
            Step::Next(next) => run(line, next, i + 1),
            done => done,
        }
    }
}

/// The author's name by the positions that the machine found.
pub open spec fn author_of(line: Seq<char>, marker: usize, bang: usize) -> Seq<char> {
    line.subrange(marker + 1, bang as int)
}

/// The event that the machine's last step stands for.
pub open spec fn outcome_event(line: Seq<char>, outcome: Step) -> Option<EventModel> {
    match outcome {
        Step::Next(_) => None,
        Step::Fail => None,
        Step::Join { marker, bang } => Some(EventModel::Join(author_of(line, marker, bang))),
        Step::Part { marker, bang } => Some(EventModel::Part(author_of(line, marker, bang))),
        Step::Body { marker, bang, from } => body_event(
            trim_end(line.subrange(from as int, line.len() as int)),
            author_of(line, marker, bang),
        ),
    }
}

/// From `Channel` the machine looks for the `:` before the body.
proof fn lemma_run_channel(line: Seq<char>, marker: usize, bang: usize, from: int, i: int)
    requires
        0 <= from <= i <= line.len() <= usize::MAX,
        forall|j: int| from <= j < i ==> line[j] != ':',
    ensures
        outcome_event(line, run(line, ParsingState::Channel { marker, bang }, i)) == message_event(
            line,
            from - 1,
            author_of(line, marker, bang),
        ),
    decreases line.len() - i,
{
    let state = ParsingState::Channel { marker, bang };
    if i == line.len() {
        lemma_first_index_is(line, ':', from, i);
    } else if line[i] == ':' {
        lemma_first_index_is(line, ':', from, i);
        let body_state = ParsingState::MessageBody { marker, bang };
        assert(run(line, state, i) == run(line, body_state, i + 1));
        if i + 1 < line.len() {
            assert(run(line, body_state, i + 1) == Step::Body {
                marker,
                bang,
                from: (i + 1) as usize,
            });
        }
    } else {
        assert(run(line, state, i) == run(line, state, i + 1));
        lemma_run_channel(line, marker, bang, from, i + 1);
    }
}

/// From `MessageToken` the machine reads the verb and decides by it.
proof fn lemma_run_token(line: Seq<char>, marker: usize, bang: usize, verb_start: usize, i: int)
    requires
        0 <= verb_start <= i <= line.len() <= usize::MAX,
        forall|j: int| verb_start <= j < i ==> line[j] != ' ',
    ensures
        outcome_event(line, run(line, ParsingState::MessageToken { marker, bang, verb_start }, i))
            == token_event(line, verb_start as int, author_of(line, marker, bang)),
    decreases line.len() - i,
{
    let state = ParsingState::MessageToken { marker, bang, verb_start };
    if i == line.len() {
        lemma_first_index_is(line, ' ', verb_start as int, i);
    } else if line[i] == ' ' {
        lemma_first_index_is(line, ' ', verb_start as int, i);
        if line.subrange(verb_start as int, i) == "PRIVMSG"@ {
            let channel = ParsingState::Channel { marker, bang };
            assert(run(line, state, i) == run(line, channel, i + 1));
            lemma_run_channel(line, marker, bang, i + 1, i + 1);
        }
    } else {
        assert(run(line, state, i) == run(line, state, i + 1));
        lemma_run_token(line, marker, bang, verb_start, i + 1);
    }
}

/// From `AdditionalUserInfo` the machine skips to the space before the verb.
proof fn lemma_run_info(line: Seq<char>, marker: usize, bang: usize, i: int)
    requires
        0 <= bang < i <= line.len() <= usize::MAX,
        forall|j: int| bang < j < i ==> line[j] != ' ',
    ensures
        outcome_event(line, run(line, ParsingState::AdditionalUserInfo { marker, bang }, i)) == {
            let gap = first_index(line, ' ', bang + 1);
            if gap >= line.len() {
                None
            } else {
                token_event(line, gap + 1, author_of(line, marker, bang))
            }
        },
    decreases line.len() - i,
{
    let state = ParsingState::AdditionalUserInfo { marker, bang };
    if i == line.len() {
        lemma_first_index_is(line, ' ', bang + 1, i);
    } else if line[i] == ' ' {
        lemma_first_index_is(line, ' ', bang + 1, i);
        let token = ParsingState::MessageToken { marker, bang, verb_start: (i + 1) as usize };
        assert(run(line, state, i) == run(line, token, i + 1));
        lemma_run_token(line, marker, bang, (i + 1) as usize, i + 1);
    } else {
        assert(run(line, state, i) == run(line, state, i + 1));
        lemma_run_info(line, marker, bang, i + 1);
    }
}

/// From `UserName`, behind the prefix marker, the machine reads the
/// author's name up to `!`.
proof fn lemma_run_user(line: Seq<char>, marker: usize, i: int)
    requires
        0 <= marker < i <= line.len() <= usize::MAX,
        forall|j: int| marker < j < i ==> line[j] != ' ' && line[j] != '!',
    ensures
        outcome_event(line, run(line, ParsingState::UserName { marker }, i)) == prefixed_event(
            line,
            marker + 1,
        ),
    decreases line.len() - i,
{
    let state = ParsingState::UserName { marker };
    let start = marker + 1;
    if i == line.len() {
        lemma_first_index_is(line, '!', start, i);
    } else if line[i] == ' ' {
        lemma_first_index_is(line, ' ', start, i);
        lemma_first_index_bounds(line, '!', i);
        lemma_first_index_is(line, '!', start, first_index(line, '!', i));
    } else if line[i] == '!' {
        lemma_first_index_is(line, '!', start, i);
        if i > start {
            let info = ParsingState::AdditionalUserInfo { marker, bang: i as usize };
            assert(run(line, state, i) == run(line, info, i + 1));
            lemma_run_info(line, marker, i as usize, i + 1);
            lemma_first_index_bounds(line, ' ', i + 1);
            lemma_first_index_is(line, ' ', start, first_index(line, ' ', i + 1));
        }
    } else {
        assert(run(line, state, i) == run(line, state, i + 1));
        lemma_run_user(line, marker, i + 1);
    }
}

/// From `Tags` the machine skips to the first space and expects the prefix
/// marker behind it.
proof fn lemma_run_tags(line: Seq<char>, i: int)
    requires
        1 <= i <= line.len() <= usize::MAX,
        line[0] == '@',
        forall|j: int| 1 <= j < i ==> line[j] != ' ',
    ensures
        outcome_event(line, run(line, ParsingState::Tags, i)) == parse_event(line),
    decreases line.len() - i,
{
    let state = ParsingState::Tags;
    if i == line.len() {
        lemma_first_index_is(line, ' ', 1, i);
    } else if line[i] == ' ' {
        lemma_first_index_is(line, ' ', 1, i);
        let user = ParsingState::UserName { marker: (i + 1) as usize };
        assert(run(line, state, i) == run(line, user, i + 1));
        if i + 1 < line.len() && line[i + 1] == ':' {
            assert(run(line, user, i + 1) == run(line, user, i + 2));
            lemma_run_user(line, (i + 1) as usize, i + 2);
        }
    } else {
        assert(run(line, state, i) == run(line, state, i + 1));
        lemma_run_tags(line, i + 1);
    }
}

/// Running the machine from the start of a line gives the event that the
/// line encodes, and none where it encodes none.
pub proof fn machine_reads_the_grammar(line: Seq<char>)
    requires
        line.len() <= usize::MAX,
    ensures
        outcome_event(line, run(line, ParsingState::Start, 0)) == parse_event(line),
{
    if line.len() > 0 {
        if line[0] == '@' {
            assert(run(line, ParsingState::Start, 0) == run(line, ParsingState::Tags, 1));
            lemma_run_tags(line, 1);
        } else if line[0] == ':' {
            let user = ParsingState::UserName { marker: 0 };
            assert(run(line, ParsingState::Start, 0) == run(line, user, 1));
            lemma_run_user(line, 0, 1);
        }
    }
}

} // verus!
