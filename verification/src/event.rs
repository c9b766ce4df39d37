//! Events of the chat feed, and the reading of one line into an event.
//!
//! A line has the shape
//! `[ '@' tags ' ' ] ':' author '!' userinfo ' ' verb ' ' ... ':' body`.
//! Only the verbs `PRIVMSG`, `JOIN` and `PART` give an event.

use crate::command::{command_model, Command, CommandModel};
use crate::machine::{
    in_order, machine_reads_the_grammar, outcome_event, run, step, ParsingState, Step,
};
use crate::tags::parse_tags;
use crate::text::{chars_of, first_index, trim_end, trimmed_end};
use vstd::prelude::*;
use vstd::string::*;

verus! {

/// A line of chat text and the name of who wrote it.
#[derive(Debug)]
pub struct TextMessage {
    pub text: String,
    pub user_name: String,
}

/// What a `TextMessage` holds, as plain sequences.
pub struct TextModel {
    pub text: Seq<char>,
    pub user_name: Seq<char>,
}

impl View for TextMessage {
    type V = TextModel;

    open spec fn view(&self) -> TextModel {
        TextModel { text: self.text@, user_name: self.user_name@ }
    }
}

impl TextMessage {
    /// A message with the given text and author.
    pub fn new(text: &str, user_name: &str) -> (message: TextMessage)
        ensures
            message@ == (TextModel { text: text@, user_name: user_name@ }),
    {
        TextMessage { text: text.to_owned(), user_name: user_name.to_owned() }
    }
}

/// What one line of the feed tells.
#[derive(Debug)]
pub enum EventContent {
    TextMessage(TextMessage),
    Command(Command),
    Part(String),
    Join(String),
}

/// What an `EventContent` holds, as plain sequences.
pub enum EventModel {
    TextMessage(TextModel),
    Command(CommandModel),
    Part(Seq<char>),
    Join(Seq<char>),
}

impl View for EventContent {
    type V = EventModel;

    open spec fn view(&self) -> EventModel {
        match self {
            EventContent::TextMessage(message) => EventModel::TextMessage(message@),
            EventContent::Command(command) => EventModel::Command(command@),
            EventContent::Part(author) => EventModel::Part(author@),
            EventContent::Join(author) => EventModel::Join(author@),
        }
    }
}

impl EventModel {
    /// The name of who caused the event.
    pub open spec fn author(self) -> Seq<char> {
        match self {
            EventModel::TextMessage(message) => message.user_name,
            EventModel::Command(command) => command.user_name,
            EventModel::Part(author) => author,
            EventModel::Join(author) => author,
        }
    }
}

/// The contents of an optional event.
pub open spec fn event_view(event: Option<EventContent>) -> Option<EventModel> {
    match event {
        Some(e) => Some(e@),
        None => None,
    }
}

/// Where the author's name starts: after a leading `:`, or after the `:`
/// that follows the first space of a line that leads with `@` and tags.
pub open spec fn author_start(line: Seq<char>) -> Option<int> {
    if line.len() == 0 {
        None
    } else if line[0] == ':' {
        Some(1)
    } else if line[0] == '@' {
        let gap = first_index(line, ' ', 1);
        if gap + 1 < line.len() && line[gap + 1] == ':' {
            Some(gap + 2)
        } else {
            None
        }
    } else {
        None
    }
}

/// The event of a message body: a command where the body starts with `!`
/// (none where the command is not a known one), else a text message.
pub open spec fn body_event(body: Seq<char>, author: Seq<char>) -> Option<EventModel> {
    if body.len() > 0 && body[0] == '!' {
        match command_model(body, author) {
            Some(command) => Some(EventModel::Command(command)),
            None => None,
        }
    } else {
        Some(EventModel::TextMessage(TextModel { text: body, user_name: author }))
    }
}

/// The event of what follows the verb `PRIVMSG`, which ends at `verb_end`:
/// the body starts after the next `:` and must hold at least one scalar
/// value; its trailing white space is left off.
pub open spec fn message_event(line: Seq<char>, verb_end: int, author: Seq<char>) -> Option<
    EventModel,
> {
    let marker = first_index(line, ':', verb_end + 1);
    if marker + 1 < line.len() {
        body_event(trim_end(line.subrange(marker + 1, line.len() as int)), author)
    } else {
        None
    }
}

/// The event of a line from its verb on. The verb starts at `verb_start`
/// and ends at the next space, which must be there.
pub open spec fn token_event(line: Seq<char>, verb_start: int, author: Seq<char>) -> Option<
    EventModel,
> {
    let verb_end = first_index(line, ' ', verb_start);
    let verb = line.subrange(verb_start, verb_end);
    if verb_end >= line.len() {
        None
    } else if verb == "PRIVMSG"@ {
        message_event(line, verb_end, author)
    } else if verb == "JOIN"@ {
        Some(EventModel::Join(author))
    } else if verb == "PART"@ {
        Some(EventModel::Part(author))
    } else {
        None
    }
}

/// The event of a line whose author's name starts at `start`. The name is
/// not empty and ends at the first `!`, with no space before it; the user
/// information runs to the next space, and the verb starts behind it.
pub open spec fn prefixed_event(line: Seq<char>, start: int) -> Option<EventModel> {
    let bang = first_index(line, '!', start);
    let gap = first_index(line, ' ', start);
    if bang == start || bang >= line.len() || gap < bang || gap >= line.len() {
        None
    } else {
        token_event(line, gap + 1, line.subrange(start, bang))
    }
}

/// The event that a line encodes, if any.
pub open spec fn parse_event(line: Seq<char>) -> Option<EventModel> {
    match author_start(line) {
        Some(start) => prefixed_event(line, start),
        None => None,
    }
}

impl EventContent {
    /// Reads one line of the feed. Gives `None` for a line that encodes none
    /// of the four events; every event that is given names its author.
    pub fn new(message: &str) -> (event: Option<EventContent>)
        ensures
            event_view(event) == parse_event(message@),
            event matches Some(e) ==> e@.author().len() > 0,
            message@.len() == 0 || (message@[0] != '@' && message@[0] != ':') ==> event is None,
    {
        let chars: Vec<char> = chars_of(message);
        let n: usize = chars.len();
        proof {
            machine_reads_the_grammar(chars@);
        }
        let mut state: ParsingState = ParsingState::Start;
        let mut i: usize = 0;
        while i < n
            invariant
                n == chars.len(),
                chars@ == message@,
                i <= n,
                in_order(state, i as int),
                run(chars@, ParsingState::Start, 0) == run(chars@, state, i as int),
                outcome_event(chars@, run(chars@, ParsingState::Start, 0)) == parse_event(chars@),
            decreases n - i,
        {
            match step(state, &chars, i) {
                Step::Next(next) => {
                    if let (ParsingState::Tags, ParsingState::UserName { .. }) = (state, next) {
                        // Tags belong to the line being read; no event carries them.
                        let _tags = parse_tags(message.substring_char(1, i));
                    }
                    state = next;
                },
                Step::Fail => {
                    return None;
                },
                Step::Join { marker, bang } => {
                    let author: &str = message.substring_char(marker + 1, bang);
                    return Some(EventContent::Join(author.to_owned()));
                },
                Step::Part { marker, bang } => {
                    let author: &str = message.substring_char(marker + 1, bang);
                    return Some(EventContent::Part(author.to_owned()));
                },
                Step::Body { marker, bang, from } => {
                    let author: &str = message.substring_char(marker + 1, bang);
                    let end: usize = trimmed_end(&chars, from);
                    let body: &str = message.substring_char(from, end);
                    if end > from && chars[from] == '!' {
                        return match Command::new(body, author) {
                            Some(command) => Some(EventContent::Command(command)),
                            None => None,
                        };
                    }
                    return Some(EventContent::TextMessage(TextMessage::new(body, author)));
                },
            }
            i += 1;
        }
        None
    }
}

} // verus!
