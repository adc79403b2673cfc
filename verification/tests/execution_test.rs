use hero_init::config::RunCommand;
use hero_init::execution::{apply, command_failure_message, shell_invocation};
use hero_init::ops::{command_result, HeroError, ProcessOutcome, Step};

#[test]
fn test_apply_simple_command() {
    let commands = vec![RunCommand::Simple("echo 'applied'".to_string())];
    match apply(&commands, 0, None) {
        Step::Perform(inv) => {
            assert_eq!(inv.program, "sh");
            assert_eq!(inv.args, vec!["-c".to_string(), "echo 'applied'".to_string()]);
            assert!(inv.env.is_empty());
        }
        Step::Finished(_) => panic!("the command was not run"),
    }
    let result = match apply(&commands, 1, Some(Ok(()))) {
        Step::Finished(r) => r,
        Step::Perform(_) => panic!("nothing is left to run"),
    };
    assert!(result.is_ok());
}

#[test]
fn test_apply_structured_command() {
    let env = vec![("KEY".to_string(), "value".to_string())];
    let commands = vec![RunCommand::Structured { cmd: "echo $KEY".to_string(), env }];
    match apply(&commands, 0, None) {
        Step::Perform(inv) => {
            assert_eq!(inv.args, vec!["-c".to_string(), "echo $KEY".to_string()]);
            assert_eq!(inv.env, vec![("KEY".to_string(), "value".to_string())]);
        }
        Step::Finished(_) => panic!("the command was not run"),
    }
    let result = match apply(&commands, 1, Some(Ok(()))) {
        Step::Finished(r) => r,
        Step::Perform(_) => panic!("nothing is left to run"),
    };
    assert!(result.is_ok());
}

#[test]
fn commands_run_in_order_and_stop_at_first_failure() {
    let commands = vec![
        RunCommand::Simple("first".to_string()),
        RunCommand::Simple("second".to_string()),
        RunCommand::Simple("third".to_string()),
    ];
    match apply(&commands, 1, Some(Ok(()))) {
        Step::Perform(inv) => assert_eq!(inv.args[1], "second"),
        Step::Finished(_) => panic!("second command expected"),
    }
    let failure = || HeroError::CommandFailed("failed to execute command".to_string());
    match apply(&commands, 1, Some(Err(failure()))) {
        Step::Finished(r) => assert_eq!(r, Err(failure())),
        Step::Perform(_) => panic!("a failure ends the run"),
    }
}

#[test]
fn no_commands_finish_at_once() {
    match apply(&Vec::new(), 0, None) {
        Step::Finished(r) => assert!(r.is_ok()),
        Step::Perform(_) => panic!("nothing to run"),
    }
}

#[test]
fn command_exit_status_decides_the_result() {
    let msg = command_failure_message();
    assert_eq!(msg, "failed to execute command");
    assert_eq!(command_result(&ProcessOutcome::Exited { success: true }, &msg), Ok(()));
    assert_eq!(
        command_result(&ProcessOutcome::Exited { success: false }, &msg),
        Err(HeroError::CommandFailed("failed to execute command".to_string()))
    );
    assert_eq!(
        command_result(
            &ProcessOutcome::NotStarted(std::io::ErrorKind::NotFound, "no such file".to_string()),
            &msg
        ),
        Err(HeroError::Io(std::io::ErrorKind::NotFound, "no such file".to_string()))
    );
}

#[test]
fn plain_command_has_no_environment() {
    let inv = shell_invocation(&RunCommand::Simple("ls".to_string()));
    assert_eq!(inv.program, "sh");
    assert!(inv.env.is_empty());
}

#[test]
fn repeated_variable_keeps_its_order() {
    let env = vec![
        ("A".to_string(), "1".to_string()),
        ("A".to_string(), "2".to_string()),
    ];
    let inv = shell_invocation(&RunCommand::Structured { cmd: "echo $A".to_string(), env });
    assert_eq!(inv.env, vec![("A".to_string(), "1".to_string()), ("A".to_string(), "2".to_string())]);
}
