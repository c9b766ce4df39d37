//! Bang-commands: a trigger character, a name from a closed set, and
//! arguments separated by single spaces.
//!
//! A name outside the closed set gives no command at all: there is no
//! "unknown command" value.

use crate::text::{chars_of, find_char, first_index, span_is, split_from, split_on, texts};
use vstd::prelude::*;

verus! {

/// The commands that are recognised.
#[derive(Debug, PartialEq, Eq, Clone, Copy, Structural)]
pub enum CommandType {
    Help,
    Info,
    Slap,
}

/// A recognised command with its arguments and the name of who sent it.
#[derive(Debug)]
pub struct Command {
    pub commmand_type: CommandType,
    pub options: Vec<String>,
    pub user_name: String,
}

/// What a `Command` holds, as plain sequences.
pub struct CommandModel {
    pub kind: CommandType,
    pub options: Seq<Seq<char>>,
    pub user_name: Seq<char>,
}

impl View for Command {
    type V = CommandModel;

    open spec fn view(&self) -> CommandModel {
        CommandModel {
            kind: self.commmand_type,
            options: texts(self.options@),
            user_name: self.user_name@,
        }
    }
}

/// The command that `name` spells, compared case-sensitively.
pub open spec fn command_kind(name: Seq<char>) -> Option<CommandType> {
    if name == "help"@ {
        Some(CommandType::Help)
    } else if name == "info"@ {
        Some(CommandType::Info)
    } else if name == "slap"@ {
        Some(CommandType::Slap)
    } else {
        None
    }
}

/// Where the command's name ends: at the first space, or at the end of `text`.
pub open spec fn name_end(text: Seq<char>) -> int {
    first_index(text, ' ', 1)
}

/// The arguments of the command in `text`: none where nothing follows the
/// name and its space, else the pieces between the single spaces of what
/// follows. An empty remainder gives no argument, not one empty argument.
pub open spec fn command_options(text: Seq<char>) -> Seq<Seq<char>> {
    if name_end(text) + 1 < text.len() {
        split_on(text.subrange(name_end(text) + 1, text.len() as int), ' ')
    } else {
        Seq::empty()
    }
}

/// The command that `text` encodes when sent by `user_name`, if any: `text`
/// starts with `!` and its name is a known one.
pub open spec fn command_model(text: Seq<char>, user_name: Seq<char>) -> Option<CommandModel> {
    if text.len() == 0 || text[0] != '!' {
        None
    } else {
        match command_kind(text.subrange(1, name_end(text))) {
            Some(kind) => Some(CommandModel { kind, options: command_options(text), user_name }),
            None => None,
        }
    }
}

/// The contents of an optional command.
pub open spec fn command_view(command: Option<Command>) -> Option<CommandModel> {
    match command {
        Some(c) => Some(c@),
        None => None,
    }
}

impl Command {
    /// Reads a command from a message body. Gives `None` where `text` does
    /// not start with `!` or names no known command.
    pub fn new(text: &str, user_name: &str) -> (command: Option<Command>)
        ensures
            command_view(command) == command_model(text@, user_name@),
    {
        let chars: Vec<char> = chars_of(text);
        let n: usize = chars.len();
        if n == 0 || chars[0] != '!' {
            return None;
        }
        let end: usize = find_char(&chars, ' ', 1);
        let kind: CommandType = if span_is(&chars, 1, end, "help") {
            CommandType::Help
        } else if span_is(&chars, 1, end, "info") {
            CommandType::Info
        } else if span_is(&chars, 1, end, "slap") {
            CommandType::Slap
        } else {
            return None;
        };
        let options: Vec<String> = if end < n && end + 1 < n {
            split_from(text, &chars, end + 1, ' ')
        } else {
            Vec::new()
        };
        proof {
            assert(texts(options@) =~= command_options(text@));
        }
        Some(Command { commmand_type: kind, options, user_name: user_name.to_owned() })
    }
}

} // verus!
