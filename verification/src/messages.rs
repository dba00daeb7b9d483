//! The records of the shared shell: what a client sends and what every
//! client receives back.

use vstd::prelude::*;
use vstd::string::StringExecFns;

verus! {

/// How the server is to treat the content of a message.
#[derive(Debug, Clone, Copy, PartialEq, Eq)]
pub enum Mode {
    /// The content is chat text, relayed as it is.
    Chat,
    /// The content is a command line to run.
    Cmd,
}

/// One record from a client to the server.
#[derive(Debug, Clone, PartialEq, Eq)]
pub struct Message {
    pub content: String,
    pub mode: Mode,
    pub user_name: String,
}

/// One record from the server to every client: the message that was
/// processed and what processing it gave.
#[derive(Debug, Clone, PartialEq, Eq)]
pub struct Response {
    pub og_msg: Message,
    pub response: String,
}

/// A message as texts.
pub struct MessageView {
    pub content: Seq<char>,
    pub mode: Mode,
    pub user_name: Seq<char>,
}

/// A response as texts.
pub struct ResponseView {
    pub og_msg: MessageView,
    pub response: Seq<char>,
}

impl View for Message {
    type V = MessageView;

    open spec fn view(&self) -> MessageView {
        MessageView { content: self.content@, mode: self.mode, user_name: self.user_name@ }
    }
}

impl View for Response {
    type V = ResponseView;

    open spec fn view(&self) -> ResponseView {
        ResponseView { og_msg: self.og_msg@, response: self.response@ }
    }
}

impl Mode {
    /// The text shown in front of the input line in this mode.
    pub open spec fn prompt_text(self) -> Seq<char> {
        match self {
            Mode::Chat => "CHAT >> "@,
            Mode::Cmd => ">> "@,
        }
    }

    /// The prompt of this mode as an owned string.
    pub fn prompt(&self) -> (text: String)
        ensures
            text@ == self.prompt_text(),
    {
        match self {
            Mode::Chat => String::from_str("CHAT >> "),
            Mode::Cmd => String::from_str(">> "),
        }
    }
}

} // verus!
