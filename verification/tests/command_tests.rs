use live_update::command::{interpret_output, CommandError};

#[test]
fn success_yields_the_stdout_text() {
    let r = interpret_output(true, &b"hi\n".to_vec(), &b"ignored".to_vec());
    assert_eq!(r.unwrap(), "hi\n");
}

#[test]
fn failure_yields_the_stderr_text() {
    let r = interpret_output(false, &b"ignored".to_vec(), &b"no such command\n".to_vec());
    match r {
        Err(CommandError::CommandFailed(text)) => assert_eq!(text, "no such command\n"),
        Ok(_) => panic!("expected a failure"),
    }
}

#[test]
fn invalid_bytes_are_replaced_not_fatal() {
    let r = interpret_output(true, &vec![b'h', 0xff, b'i'], &Vec::new());
    assert_eq!(r.unwrap(), "h\u{fffd}i");
}

#[test]
fn error_message_text() {
    let e = CommandError::CommandFailed("boom".to_string());
    assert_eq!(e.message(), "Nushell error: boom");
}
