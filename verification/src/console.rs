//! The console of the shared shell's client: the line being typed, the
//! mode it will be sent in, and the two histories that the display shows.
//! Keys edit the line; Enter sends it, unless it is one of the words that
//! the console keeps for itself.

use crate::client::{Key, KeyAction};
use crate::messages::{Message, MessageView, Mode, Response, ResponseView};
use vstd::prelude::*;
use vstd::string::{StrSliceExecFns, StringExecFns};

verus! {

/// `String::push` appends the character to the end of the string.
pub assume_specification[ String::push ](text: &mut String, ch: char)
    ensures
        final(text)@ == old(text)@.push(ch),
;

/// `String::pop` removes the last character and returns it, or returns
/// `None` and changes nothing if the string is empty.
pub assume_specification[ String::pop ](text: &mut String) -> (last: Option<char>)
    ensures
        old(text)@.len() == 0 ==> last is None && final(text)@ == old(text)@,
        old(text)@.len() > 0 ==> last == Some(old(text)@.last()) && final(text)@ == old(
            text,
        )@.drop_last(),
;

/// Whether the text's last character is a line feed.
fn ends_with_line_feed(text: &str) -> (ends: bool)
    ensures
        ends == (text@.len() > 0 && text@.last() == '\n'),
{
    let n = text.unicode_len();
    n > 0 && text.get_char(n - 1) == '\n'
}

/// One line of the chat history.
#[derive(Debug, Clone, PartialEq, Eq)]
pub struct ChatLine {
    /// When the response arrived, as the display shows it.
    pub at: String,
    pub user: String,
    pub text: String,
}

/// One entry of the command history.
#[derive(Debug, Clone, PartialEq, Eq)]
pub struct CommandLine {
    /// When the response arrived, as the display shows it.
    pub at: String,
    pub user: String,
    pub command: String,
    pub output: String,
}

/// A chat line as texts.
pub struct ChatLineView {
    pub at: Seq<char>,
    pub user: Seq<char>,
    pub text: Seq<char>,
}

/// A command entry as texts.
pub struct CommandLineView {
    pub at: Seq<char>,
    pub user: Seq<char>,
    pub command: Seq<char>,
    pub output: Seq<char>,
}

impl View for ChatLine {
    type V = ChatLineView;

    open spec fn view(&self) -> ChatLineView {
        ChatLineView { at: self.at@, user: self.user@, text: self.text@ }
    }
}

impl View for CommandLine {
    type V = CommandLineView;

    open spec fn view(&self) -> CommandLineView {
        CommandLineView {
            at: self.at@,
            user: self.user@,
            command: self.command@,
            output: self.output@,
        }
    }
}

/// A console as texts.
#[verifier::ext_equal]
pub struct ConsoleView {
    pub user_name: Seq<char>,
    /// The line being typed.
    pub input: Seq<char>,
    /// The mode in which the next line is sent.
    pub mode: Mode,
    /// The chat history, oldest first.
    pub messages: Seq<ChatLineView>,
    /// The command history, oldest first.
    pub commands: Seq<CommandLineView>,
}

/// The key leaves the shared terminal.
pub open spec fn is_exit(key: Key) -> bool {
    key == Key::Ctrl('c') || key == Key::Esc
}

/// The line is one of the words that the console keeps for itself.
pub open spec fn is_keyword(line: Seq<char>) -> bool {
    line == "CHAT"@ || line == "CMD"@ || line == "CLEAR"@
}

/// The console after Enter: the line is taken, and a keyword does its
/// work. `CHAT` and `CMD` set the mode, `CLEAR` empties the history of the
/// mode the console is in.
pub open spec fn entered(console: ConsoleView) -> ConsoleView {
    let line = console.input;
    let taken = ConsoleView { input: Seq::empty(), ..console };
    if line == "CHAT"@ {
        ConsoleView { mode: Mode::Chat, ..taken }
    } else if line == "CMD"@ {
        ConsoleView { mode: Mode::Cmd, ..taken }
    } else if line == "CLEAR"@ {
        match console.mode {
            Mode::Cmd => ConsoleView { commands: Seq::empty(), ..taken },
            Mode::Chat => ConsoleView { messages: Seq::empty(), ..taken },
        }
    } else {
        taken
    }
}

/// The console after a key.
pub open spec fn key_effect(console: ConsoleView, key: Key) -> ConsoleView {
    match key {
        Key::Char(c) => if c == '\n' {
            entered(console)
        } else {
            ConsoleView { input: console.input.push(c), ..console }
        },
        Key::Backspace => if console.input.len() > 0 {
            ConsoleView { input: console.input.drop_last(), ..console }
        } else {
            console
        },
        _ => console,
    }
}

/// The message that a key sends, if it sends one: Enter sends the line,
/// unless the line is a keyword.
pub open spec fn outgoing(console: ConsoleView, key: Key) -> Option<MessageView> {
    if key == Key::Char('\n') && !is_keyword(console.input) {
        Some(
            MessageView {
                content: console.input,
                mode: console.mode,
                user_name: console.user_name,
            },
        )
    } else {
        None
    }
}

/// The console after a response arrived at the time `at`: the response
/// joins the history of the mode its message was sent in.
pub open spec fn recorded(console: ConsoleView, at: Seq<char>, response: ResponseView)
    -> ConsoleView {
    match response.og_msg.mode {
        Mode::Chat => ConsoleView {
            messages: console.messages.push(
                ChatLineView { at, user: response.og_msg.user_name, text: response.response },
            ),
            ..console
        },
        Mode::Cmd => ConsoleView {
            commands: console.commands.push(
                CommandLineView {
                    at,
                    user: response.og_msg.user_name,
                    command: response.og_msg.content,
                    output: response.response,
                },
            ),
            ..console
        },
    }
}

/// One chat line as the display shows it.
pub open spec fn chat_line_text(line: ChatLineView) -> Seq<char> {
    line.at + ": "@ + line.user + ": "@ + line.text + "\n"@
}

/// One command entry as the display shows it: the command, then its output
/// on lines of its own, then an empty line.
pub open spec fn command_line_text(line: CommandLineView) -> Seq<char> {
    let closing = if line.output.len() > 0 && line.output.last() == '\n' {
        ""@
    } else {
        "\n"@
    };
    line.at + ": "@ + line.user + " >> "@ + line.command + "\n"@ + line.output + closing + "\n"@
}

/// The chat history as the display shows it, newest line first.
pub open spec fn chat_text(lines: Seq<ChatLineView>) -> Seq<char>
    decreases lines.len(),
{
    if lines.len() == 0 {
        Seq::empty()
    } else {
        chat_line_text(lines.last()) + chat_text(lines.drop_last())
    }
}

/// The command history as the display shows it, newest entry first.
pub open spec fn command_text(lines: Seq<CommandLineView>) -> Seq<char>
    decreases lines.len(),
{
    if lines.len() == 0 {
        Seq::empty()
    } else {
        command_line_text(lines.last()) + command_text(lines.drop_last())
    }
}

/// The title over the input line.
pub open spec fn title_text(mode: Mode) -> Seq<char> {
    match mode {
        Mode::Chat => "Chat"@,
        Mode::Cmd => "Command"@,
    }
}

/// The state of one client's console.
pub struct Console {
    user_name: String,
    input: String,
    mode: Mode,
    messages: Vec<ChatLine>,
    commands: Vec<CommandLine>,
}

impl View for Console {
    type V = ConsoleView;

    closed spec fn view(&self) -> ConsoleView {
        ConsoleView {
            user_name: self.user_name@,
            input: self.input@,
            mode: self.mode,
            messages: Seq::new(self.messages@.len(), |i: int| self.messages@[i]@),
            commands: Seq::new(self.commands@.len(), |i: int| self.commands@[i]@),
        }
    }
}

impl Console {
    /// The console of `user_name` before anything was typed or received: in
    /// chat mode, with an empty line and empty histories.
    pub fn new(user_name: String) -> (console: Console)
        ensures
            console@ == (ConsoleView {
                user_name: user_name@,
                input: Seq::empty(),
                mode: Mode::Chat,
                messages: Seq::empty(),
                commands: Seq::empty(),
            }),
    {
        Console {
            user_name,
            input: String::new(),
            mode: Mode::Chat,
            messages: Vec::new(),
            commands: Vec::new(),
        }
    }

    /// The line being typed.
    pub fn input(&self) -> (line: &str)
        ensures
            line@ == self@.input,
    {
        self.input.as_str()
    }

    /// The mode in which the next line is sent.
    pub fn mode(&self) -> (mode: Mode)
        ensures
            mode == self@.mode,
    {
        self.mode
    }

    /// The title over the input line.
    pub fn title(&self) -> (title: String)
        ensures
            title@ == title_text(self@.mode),
    {
        match self.mode {
            Mode::Chat => String::from_str("Chat"),
            Mode::Cmd => String::from_str("Command"),
        }
    }

    /// Reacts to one key. Ctrl-C and Esc leave the terminal. Enter takes
    /// the line: a keyword does its work, any other line is sent as a
    /// message in the console's mode under the user's name. Any other
    /// character joins the line, Backspace removes its last character, and
    /// every other key does nothing.
    pub fn on_key(&mut self, key: Key) -> (action: KeyAction<Message>)
        ensures
            final(self)@ == key_effect(old(self)@, key),
            action is Exit <==> is_exit(key),
            match action {
                KeyAction::SendMessage(message) => outgoing(old(self)@, key) == Some(message@),
                _ => outgoing(old(self)@, key) is None,
            },
    {
        match key {
            Key::Ctrl(c) => {
                if c == 'c' {
                    return KeyAction::Exit;
                }
                KeyAction::DoNothing
            },
            Key::Esc => KeyAction::Exit,
            Key::Char(c) => {
                if c == '\n' {
                    self.enter()
                } else {
                    self.input.push(c);
                    KeyAction::DoNothing
                }
            },
            Key::Backspace => {
                self.input.pop();
                KeyAction::DoNothing
            },
            _ => KeyAction::DoNothing,
        }
    }

    /// Takes the line that was typed and acts on it.
    fn enter(&mut self) -> (action: KeyAction<Message>)
        ensures
            final(self)@ == entered(old(self)@),
            !(action is Exit),
            match action {
                KeyAction::SendMessage(message) => outgoing(old(self)@, Key::Char('\n')) == Some(
                    message@,
                ),
                _ => outgoing(old(self)@, Key::Char('\n')) is None,
            },
    {
        let mut line = String::new();
        std::mem::swap(&mut line, &mut self.input);
        if line == String::from_str("CHAT") {
            self.mode = Mode::Chat;
            KeyAction::DoNothing
        } else if line == String::from_str("CMD") {
            self.mode = Mode::Cmd;
            KeyAction::DoNothing
        } else if line == String::from_str("CLEAR") {
            match self.mode {
                Mode::Cmd => {
                    self.commands.clear();
                },
                Mode::Chat => {
                    self.messages.clear();
                },
            }
            KeyAction::DoNothing
        } else {
            KeyAction::SendMessage(
                Message { content: line, mode: self.mode, user_name: self.user_name.clone() },
            )
        }
    }

    /// Takes in one response that arrived at the time `at`: it joins the
    /// history of the mode its message was sent in.
    pub fn record(&mut self, at: String, response: Response)
        ensures
            final(self)@ == recorded(old(self)@, at@, response@),
    {
        let Response { og_msg, response: text } = response;
        let Message { content, mode, user_name } = og_msg;
        match mode {
            Mode::Chat => {
                let line = ChatLine { at, user: user_name, text };
                self.messages.push(line);
                assert(self@.messages =~= old(self)@.messages.push(line@));
                assert(self@.commands =~= old(self)@.commands);
            },
            Mode::Cmd => {
                let line = CommandLine { at, user: user_name, command: content, output: text };
                self.commands.push(line);
                assert(self@.commands =~= old(self)@.commands.push(line@));
                assert(self@.messages =~= old(self)@.messages);
            },
        }
    }

    /// The chat history as the display shows it, newest line first.
    pub fn messages_text(&self) -> (text: String)
        ensures
            text@ == chat_text(self@.messages),
    {
        let ghost lines = self@.messages;
        let mut text = String::new();
        let mut i: usize = self.messages.len();
        proof {
            assert(lines.take(i as int) =~= lines);
            assert(text@ + chat_text(lines) =~= chat_text(lines));
        }
        while i > 0
            invariant
                i <= self.messages.len(),
                lines == self@.messages,
                lines.len() == self.messages.len(),
                text@ + chat_text(lines.take(i as int)) == chat_text(lines),
            decreases i,
        {
            proof {
                assert(lines.take(i as int).drop_last() =~= lines.take(i - 1));
            }
            i -= 1;
            let line = &self.messages[i];
            let ghost before = text@;
            text.append(line.at.as_str());
            text.append(": ");
            text.append(line.user.as_str());
            text.append(": ");
            text.append(line.text.as_str());
            text.append("\n");
            proof {
                assert(line@ == lines[i as int]);
                assert(text@ =~= before + chat_line_text(lines[i as int]));
                assert(text@ + chat_text(lines.take(i as int)) =~= before + (chat_line_text(
                    lines[i as int],
                ) + chat_text(lines.take(i as int))));
            }
        }
        proof {
            assert(text@ + chat_text(lines.take(0)) =~= text@);
        }
        text
    }

    /// The command history as the display shows it, newest entry first.
    pub fn commands_text(&self) -> (text: String)
        ensures
            text@ == command_text(self@.commands),
    {
        let ghost lines = self@.commands;
        let mut text = String::new();
        let mut i: usize = self.commands.len();
        proof {
            assert(lines.take(i as int) =~= lines);
            assert(text@ + command_text(lines) =~= command_text(lines));
        }
        while i > 0
            invariant
                i <= self.commands.len(),
                lines == self@.commands,
                lines.len() == self.commands.len(),
                text@ + command_text(lines.take(i as int)) == command_text(lines),
            decreases i,
        {
            proof {
                assert(lines.take(i as int).drop_last() =~= lines.take(i - 1));
            }
            i -= 1;
            let line = &self.commands[i];
            let ghost before = text@;
            text.append(line.at.as_str());
            text.append(": ");
            text.append(line.user.as_str());
            text.append(" >> ");
            text.append(line.command.as_str());
            text.append("\n");
            text.append(line.output.as_str());
            if !ends_with_line_feed(line.output.as_str()) {
                text.append("\n");
            }
            text.append("\n");
            proof {
                reveal_strlit("");
                assert(line@ == lines[i as int]);
                assert(text@ =~= before + command_line_text(lines[i as int]));
                assert(text@ + command_text(lines.take(i as int)) =~= before + (command_line_text(
                    lines[i as int],
                ) + command_text(lines.take(i as int))));
            }
        }
        proof {
            assert(text@ + command_text(lines.take(0)) =~= text@);
        }
        text
    }
}

} // verus!
