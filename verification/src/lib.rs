//! Reading of chat-protocol lines into structured events.
//!
//! A line of the chat feed is turned into one of four events: a text message,
//! a bang-command, a join or a part. Lines of any other shape give no event.
//!
//! - `text`: searching, splitting and trimming sequences of scalar values.
//! - `tags`: the `key=value` metadata that may lead a line.
//! - `command`: bang-commands and their arguments.
//! - `event`: the events, what a line encodes, and the reader of lines.
//! - `machine`: the reader's state machine, proved against what a line encodes.
//! - `grammar`: what reading gives for lines written out part by part.
//! - `error`: the failures of the transport that carries the lines.

pub mod command;
pub mod error;
pub mod event;
pub mod grammar;
pub mod machine;
pub mod tags;
pub mod text;

pub use command::{Command, CommandType};
pub use error::ConnectorError;
pub use event::{EventContent, TextMessage};
pub use tags::parse_tags;
