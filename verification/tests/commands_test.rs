use std::collections::HashMap;

use chirpstack_mqtt_forwarder::commands::{
    command_args, exec_response, program_and_args, CommandError,
};
use chirpstack_mqtt_forwarder::gw;

fn configured() -> Vec<(String, Vec<String>)> {
    vec![
        ("wordcount".to_string(), vec!["wc".to_string(), "-w".to_string()]),
        ("empty".to_string(), vec![]),
    ]
}

#[test]
fn test_commands() {
    let err = command_args(&configured(), "reboot").unwrap_err();
    assert_eq!("Command 'reboot' is not configured", err.message());
    let err = command_args(&configured(), "empty").unwrap_err();
    assert!(matches!(err, CommandError::NoArguments(ref n) if n == "empty"));
    assert_eq!("Command 'empty' has no arguments", err.message());
    assert_eq!(
        command_args(&configured(), "wordcount").unwrap(),
        vec!["wc".to_string(), "-w".to_string()]
    );
}

#[test]
fn program_comes_first() {
    assert_eq!(program_and_args(&[]), None);
    assert_eq!(
        program_and_args(&["sh".to_string(), "-c".to_string(), "true".to_string()]),
        Some(("sh".to_string(), vec!["-c".to_string(), "true".to_string()]))
    );
}

#[test]
fn responses_carry_output_or_error() {
    let req = gw::GatewayCommandExecRequest {
        gateway_id: "0102030405060708".to_string(),
        command: "wordcount".to_string(),
        exec_id: 123,
        stdin: b"foo bar test bar".to_vec(),
        environment: HashMap::new(),
    };
    let ok = exec_response(&req, Ok((b"4\n".to_vec(), vec![])));
    assert_eq!(
        ok,
        gw::GatewayCommandExecResponse {
            gateway_id: "0102030405060708".to_string(),
            exec_id: 123,
            stdout: b"4\n".to_vec(),
            stderr: vec![],
            error: String::new(),
        }
    );
    let failed = exec_response(&req, Err("No such file or directory (os error 2)".to_string()));
    assert_eq!(failed.error, "No such file or directory (os error 2)");
    assert!(failed.stdout.is_empty());
}
