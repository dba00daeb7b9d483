use syncterm::messages::{Message, Mode, Response};
use syncterm::shell::{
    describe, error_text, invocation_of, outcome_of, parse_command, respond, respond_with,
    task_for, Invocation, Ran, ShellError, Task,
};

fn message(content: &str, mode: Mode) -> Message {
    Message { content: content.to_string(), mode, user_name: "ada".to_string() }
}

#[test]
fn the_prompt_names_the_mode() {
    assert_eq!(Mode::Chat.prompt(), "CHAT >> ");
    assert_eq!(Mode::Cmd.prompt(), ">> ");
}

#[test]
fn a_command_line_is_split_at_whitespace() {
    assert_eq!(
        parse_command("  git   log\t--oneline \n"),
        Ok(Invocation {
            program: "git".to_string(),
            args: vec!["log".to_string(), "--oneline".to_string()],
        })
    );
    assert_eq!(parse_command("ls"), Ok(Invocation { program: "ls".to_string(), args: vec![] }));
}

#[test]
fn a_line_without_a_word_is_empty() {
    assert_eq!(parse_command(""), Err(ShellError::Empty));
    assert_eq!(parse_command(" \t\n"), Err(ShellError::Empty));
}

#[test]
fn the_first_word_is_the_program() {
    assert_eq!(invocation_of(vec![]), Err(ShellError::Empty));
    assert_eq!(
        invocation_of(vec!["echo".to_string(), "a b".to_string()]),
        Ok(Invocation { program: "echo".to_string(), args: vec!["a b".to_string()] })
    );
}

#[test]
fn chat_asks_for_nothing_to_run() {
    assert_eq!(task_for(&message("ls -l", Mode::Chat)), Task::Echo);
    assert_eq!(task_for(&message("", Mode::Chat)), Task::Echo);
}

#[test]
fn a_command_asks_to_run_its_words() {
    assert_eq!(
        task_for(&message("ls -l", Mode::Cmd)),
        Task::Run(Invocation { program: "ls".to_string(), args: vec!["-l".to_string()] })
    );
    assert_eq!(task_for(&message("   ", Mode::Cmd)), Task::Refuse(ShellError::Empty));
}

#[test]
fn errors_have_their_texts() {
    assert_eq!(error_text(ShellError::Empty, ""), "Empty input");
    assert_eq!(error_text(ShellError::Bad, "no such"), "Bad input: \"no such\"");
    assert_eq!(error_text(ShellError::Bad, "say \"hi\"\n"), "Bad input: \"say \\\"hi\\\"\\n\"");
    assert_eq!(describe(ShellError::Bad, "'x'"), "Bad input: 'x'");
    assert_eq!(describe(ShellError::Empty, "'x'"), "Empty input");
}

#[test]
fn chat_is_answered_with_itself() {
    let sent = message("hello all", Mode::Chat);
    assert_eq!(
        respond(sent.clone(), Ran::Nothing),
        Response { og_msg: sent, response: "hello all".to_string() }
    );
}

#[test]
fn a_command_is_answered_with_what_it_printed() {
    let sent = message("echo hi", Mode::Cmd);
    assert_eq!(
        respond(sent.clone(), Ran::Output("hi\n".to_string())),
        Response { og_msg: sent, response: "hi\n".to_string() }
    );
}

#[test]
fn a_failure_is_answered_with_its_error() {
    let empty = message(" ", Mode::Cmd);
    assert_eq!(
        respond(empty.clone(), Ran::Failed(ShellError::Empty)),
        Response { og_msg: empty, response: "Error running command: Empty input".to_string() }
    );
    let bad = message("nope -x", Mode::Cmd);
    assert_eq!(
        respond(bad.clone(), Ran::Failed(ShellError::Bad)),
        Response {
            og_msg: bad,
            response: "Error running command: Bad input: \"nope -x\"".to_string(),
        }
    );
}

#[test]
fn the_reason_is_used_only_for_a_failure() {
    let sent = message("x", Mode::Cmd);
    assert_eq!(respond_with(sent.clone(), Ran::Nothing, "why").response, "x");
    assert_eq!(respond_with(sent.clone(), Ran::Output("out".to_string()), "why").response, "out");
    assert_eq!(
        respond_with(sent, Ran::Failed(ShellError::Bad), "why").response,
        "Error running command: why"
    );
}

#[test]
fn the_outcome_follows_the_task() {
    let run = Task::Run(Invocation { program: "ls".to_string(), args: vec![] });
    assert_eq!(outcome_of(Task::Echo, None::<Result<String, ()>>), Ran::Nothing);
    assert_eq!(outcome_of(Task::Echo, Some(Ok::<String, ()>("x".to_string()))), Ran::Nothing);
    assert_eq!(
        outcome_of(Task::Refuse(ShellError::Empty), None::<Result<String, ()>>),
        Ran::Failed(ShellError::Empty)
    );
    assert_eq!(
        outcome_of(run.clone(), Some(Ok::<String, ()>("a.txt\n".to_string()))),
        Ran::Output("a.txt\n".to_string())
    );
    assert_eq!(outcome_of(run.clone(), Some(Err::<String, ()>(()))), Ran::Failed(ShellError::Bad));
    assert_eq!(outcome_of(run, None::<Result<String, ()>>), Ran::Failed(ShellError::Bad));
}
