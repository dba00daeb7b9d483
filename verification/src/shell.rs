//! How the shared shell answers a message. Chat is relayed as it is. A
//! command line is split into words, the host runs the program that the
//! first word names, and what the program printed is the answer. Running
//! programs is the host's; what to run and how to answer is decided here.

use crate::messages::{Message, Mode, Response};
use vstd::prelude::*;
use vstd::string::StringExecFns;

verus! {

/// The words of a text: what `str::split_whitespace` yields for it, in
/// order.
pub uninterp spec fn whitespace_words(text: Seq<char>) -> Seq<Seq<char>>;

/// A text as `{:?}` prints it: in double quotes, with escapes.
pub uninterp spec fn debug_text(text: Seq<char>) -> Seq<char>;

/// Calls `str::split_whitespace` and gives each word as a string of its
/// own. The contract names the words: `whitespace_words` of the text.
#[verifier::external_body]
fn split_words(text: &str) -> (words: Vec<String>)
    ensures
        words@.len() == whitespace_words(text@).len(),
        forall|i: int| 0 <= i < words@.len() ==> (#[trigger] words@[i])@ == whitespace_words(text@)[i],
{
    text.split_whitespace().map(|word| word.to_string()).collect()
}

/// Formats a text with `{:?}`. The contract names the result: `debug_text`
/// of the text.
#[verifier::external_body]
fn debug_string(text: &str) -> (quoted: String)
    ensures
        quoted@ == debug_text(text@),
{
    format!("{:?}", text)
}

/// Why a command line gave no output.
#[derive(Debug, Clone, Copy, PartialEq, Eq)]
pub enum ShellError {
    /// The command line holds no word.
    Empty,
    /// The program could not be run.
    Bad,
}

/// A program to run and the arguments to run it with.
#[derive(Debug, Clone, PartialEq, Eq)]
pub struct Invocation {
    pub program: String,
    pub args: Vec<String>,
}

/// What a message asks of the host.
#[derive(Debug, Clone, PartialEq, Eq)]
pub enum Task {
    /// Nothing to run: the content is the answer.
    Echo,
    /// Run this and answer with what it prints.
    Run(Invocation),
    /// Nothing can be run: answer with the error.
    Refuse(ShellError),
}

/// What came of a message's task.
#[derive(Debug, Clone, PartialEq, Eq)]
pub enum Ran {
    /// Nothing was to be run.
    Nothing,
    /// The program ran and printed this.
    Output(String),
    /// No program ran, or it could not be run.
    Failed(ShellError),
}

impl View for Invocation {
    type V = (Seq<char>, Seq<Seq<char>>);

    /// The program's name and the arguments, as texts.
    open spec fn view(&self) -> (Seq<char>, Seq<Seq<char>>) {
        (self.program@, Seq::new(self.args@.len(), |i: int| self.args@[i]@))
    }
}

/// What a command line asks to run: its first word with the words after it,
/// or nothing where it holds no word.
pub open spec fn parsed(content: Seq<char>) -> Result<(Seq<char>, Seq<Seq<char>>), ShellError> {
    let words = whitespace_words(content);
    if words.len() == 0 {
        Err(ShellError::Empty)
    } else {
        Ok((words[0], words.skip(1)))
    }
}

/// The text of an error about the command line `content`.
pub open spec fn error_message(error: ShellError, content: Seq<char>) -> Seq<char> {
    match error {
        ShellError::Empty => "Empty input"@,
        ShellError::Bad => "Bad input: "@ + debug_text(content),
    }
}

/// The answer to a message with the given content and outcome.
pub open spec fn answer_text(content: Seq<char>, ran: Ran) -> Seq<char> {
    match ran {
        Ran::Nothing => content,
        Ran::Output(printed) => printed@,
        Ran::Failed(error) => "Error running command: "@ + error_message(error, content),
    }
}

/// What a list of words asks to run: the first word is the program, the
/// words after it are its arguments. An empty list is refused as `Empty`.
pub fn invocation_of(words: Vec<String>) -> (invocation: Result<Invocation, ShellError>)
    ensures
        invocation is Ok <==> words@.len() > 0,
        invocation matches Ok(run) ==> run.program == words@[0] && run.args@ == words@.skip(1),
        invocation matches Err(error) ==> error == ShellError::Empty,
{
    let mut words = words;
    if words.len() == 0 {
        return Err(ShellError::Empty);
    }
    let program = words.remove(0);
    Ok(Invocation { program, args: words })
}

/// Splits a command line into the program to run and its arguments. A line
/// without a word is refused as `Empty`.
pub fn parse_command(content: &str) -> (invocation: Result<Invocation, ShellError>)
    ensures
        invocation is Ok <==> whitespace_words(content@).len() > 0,
        invocation matches Ok(run) ==> parsed(content@) == Ok::<
            (Seq<char>, Seq<Seq<char>>),
            ShellError,
        >(run@),
        invocation matches Err(error) ==> error == ShellError::Empty,
{
    let words = split_words(content);
    let invocation = invocation_of(words);
    proof {
        if invocation is Ok {
            let run = invocation->Ok_0;
            assert(run@.1 =~= whitespace_words(content@).skip(1)) by {
                assert forall|i: int| 0 <= i < run@.1.len() implies run@.1[i] == whitespace_words(
                    content@,
                ).skip(1)[i] by {
                    assert(run.args@[i] == words@[i + 1]);
                }
            }
        }
    }
    invocation
}

/// What the host is to do for a message: nothing for chat, and for a
/// command what its content asks to run.
pub fn task_for(message: &Message) -> (task: Task)
    ensures
        message.mode == Mode::Chat ==> task == Task::Echo,
        message.mode == Mode::Cmd ==> match parsed(message.content@) {
            Ok(run) => task matches Task::Run(invocation) && invocation@ == run,
            Err(error) => task == Task::Refuse(error),
        },
{
    match message.mode {
        Mode::Chat => Task::Echo,
        Mode::Cmd => match parse_command(message.content.as_str()) {
            Ok(invocation) => Task::Run(invocation),
            Err(error) => Task::Refuse(error),
        },
    }
}

/// What came of a task, given what running it gave where it was to be run:
/// nothing for chat, the refusal for a line that could not be run, and for a
/// program what it printed, or `Bad` where it could not be run or was not.
pub open spec fn outcome<E>(task: Task, output: Option<Result<String, E>>) -> Ran {
    match task {
        Task::Echo => Ran::Nothing,
        Task::Refuse(error) => Ran::Failed(error),
        Task::Run(invocation) => match output {
            Some(Ok(printed)) => Ran::Output(printed),
            _ => Ran::Failed(ShellError::Bad),
        },
    }
}

/// What came of a task, given what the host's attempt to run it gave. The
/// attempt counts only for a task that was to be run.
pub fn outcome_of<E>(task: Task, output: Option<Result<String, E>>) -> (ran: Ran)
    ensures
        ran == outcome(task, output),
{
    match task {
        Task::Echo => Ran::Nothing,
        Task::Refuse(error) => Ran::Failed(error),
        Task::Run(invocation) => match output {
            Some(Ok(printed)) => Ran::Output(printed),
            _ => Ran::Failed(ShellError::Bad),
        },
    }
}

/// The text of an error about a command line, given the line as `{:?}`
/// prints it.
pub fn describe(error: ShellError, quoted: &str) -> (text: String)
    ensures
        text@ == match error {
            ShellError::Empty => "Empty input"@,
            ShellError::Bad => "Bad input: "@ + quoted@,
        },
{
    match error {
        ShellError::Empty => String::from_str("Empty input"),
        ShellError::Bad => {
            let mut text = String::from_str("Bad input: ");
            text.append(quoted);
            text
        },
    }
}

/// The text of an error about the command line `content`.
pub fn error_text(error: ShellError, content: &str) -> (text: String)
    ensures
        text@ == error_message(error, content@),
{
    let quoted = debug_string(content);
    describe(error, quoted.as_str())
}

/// The response to `message`, given what came of its task and the text of
/// the error if there was one: the content itself where nothing was run,
/// what the program printed where one ran, and the error's text, introduced
/// as an error, where none could.
pub fn respond_with(message: Message, ran: Ran, reason: &str) -> (response: Response)
    ensures
        response.og_msg == message,
        response.response@ == match ran {
            Ran::Nothing => message.content@,
            Ran::Output(printed) => printed@,
            Ran::Failed(error) => "Error running command: "@ + reason@,
        },
{
    let text = match ran {
        Ran::Nothing => message.content.clone(),
        Ran::Output(printed) => printed,
        Ran::Failed(error) => {
            let mut text = String::from_str("Error running command: ");
            text.append(reason);
            text
        },
    };
    Response { og_msg: message, response: text }
}

/// The response to `message`, given what came of its task: the content
/// itself where nothing was run, what the program printed where one ran,
/// and the error, introduced as such, where none could.
pub fn respond(message: Message, ran: Ran) -> (response: Response)
    ensures
        response.og_msg == message,
        response.response@ == answer_text(message.content@, ran),
{
    let reason = match ran {
        Ran::Failed(error) => error_text(error, message.content.as_str()),
        _ => String::new(),
    };
    respond_with(message, ran, reason.as_str())
}

} // verus!
