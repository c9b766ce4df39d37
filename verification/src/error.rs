//! Failures of the transport that carries the lines. Reading a line never
//! fails with one of these: a line that encodes no event gives `None`.

use vstd::prelude::*;
use vstd::string::*;

verus! {

/// What went wrong between this program and the chat service.
#[derive(Debug)]
pub enum ConnectorError {
    MessageReceiveFailed(String),
    MessageSendFailed(String),
}

/// The text that `std`'s `Debug` formatting of a `str` writes: the contents
/// in double quotes, with escapes.
pub uninterp spec fn debug_text(s: Seq<char>) -> Seq<char>;

/// Calls `std`'s `Debug` formatting of a `str` through `format!`. The
/// contract only gives the outcome its name, `debug_text`.
#[verifier::external_body]
fn debug_quoted(s: &str) -> (quoted: String)
    ensures
        quoted@ == debug_text(s@),
{
    format!("{:?}", s)
}

impl ConnectorError {
    /// The reason that the error carries.
    pub open spec fn reason(self) -> Seq<char> {
        match self {
            ConnectorError::MessageReceiveFailed(reason) => reason@,
            ConnectorError::MessageSendFailed(reason) => reason@,
        }
    }

    /// How the description of the error starts.
    pub open spec fn heading(self) -> Seq<char> {
        match self {
            ConnectorError::MessageReceiveFailed(_) => "Receiving message failed: "@,
            ConnectorError::MessageSendFailed(_) => "Sending message failed: "@,
        }
    }

    /// The description made of the heading and `quoted`, the reason as it
    /// is to be shown.
    pub fn with_heading(&self, quoted: &str) -> (text: String)
        ensures
            text@ == self.heading() + quoted@,
    {
        let heading: &str = match self {
            ConnectorError::MessageReceiveFailed(_) => "Receiving message failed: ",
            ConnectorError::MessageSendFailed(_) => "Sending message failed: ",
        };
        String::from_str(heading).concat(quoted)
    }

    /// A description for people: the heading, then the reason as `Debug`
    /// formatting writes it.
    pub fn message(&self) -> (text: String)
        ensures
            text@ == self.heading() + debug_text(self.reason()),
    {
        let quoted: String = match self {
            ConnectorError::MessageReceiveFailed(reason) => debug_quoted(reason.as_str()),
            ConnectorError::MessageSendFailed(reason) => debug_quoted(reason.as_str()),
        };
        self.with_heading(quoted.as_str())
    }
}

} // verus!
