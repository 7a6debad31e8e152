use lambda_cli::client::{KeyLookup, LambdaClient, Startup};
use lambda_cli::error::LambdaError;
use lambda_cli::key::{api_key_from_command, command_shell, ApiKeySource, CommandOutcome};
use lambda_cli::request::authorization;

fn printed(stdout: &[u8]) -> CommandOutcome {
    CommandOutcome::Exited { success: true, stdout: stdout.to_vec(), stderr: Vec::new() }
}

fn failed(stderr: &[u8]) -> CommandOutcome {
    CommandOutcome::Exited {
        success: false,
        stdout: b"ignored".to_vec(),
        stderr: stderr.to_vec(),
    }
}

fn known(client: &LambdaClient) -> Option<String> {
    match client.get_api_key() {
        KeyLookup::Known(key) => Some(key),
        KeyLookup::RunCommand(_) => None,
    }
}

fn some(text: &str) -> Option<String> {
    Some(text.to_string())
}

#[test]
fn direct_key_is_used_at_once() {
    for lazy in [true, false] {
        let started =
            LambdaClient::from_env_with_options(lazy, some("secret"), some("echo other")).unwrap();
        match started {
            Startup::Ready(client) => assert_eq!(known(&client), some("secret")),
            Startup::RunCommand(_) => panic!("no command is needed"),
        }
    }
    assert_eq!(known(&LambdaClient::new("k".to_string())), some("k"));
}

#[test]
fn empty_variables_count_as_not_set() {
    let error = LambdaClient::from_env(some(""), some("")).unwrap_err();
    assert!(matches!(error, LambdaError::ApiKeyNotSet));
    assert!(matches!(LambdaClient::from_env(None, None), Err(LambdaError::ApiKeyNotSet)));
    match LambdaClient::from_env(some(""), some("op read")).unwrap() {
        Startup::RunCommand(command) => assert_eq!(command, "op read"),
        Startup::Ready(_) => panic!("the command is executed at startup"),
    }
}

#[test]
fn lazy_command_runs_once() {
    let started = LambdaClient::from_env_with_options(true, None, some("op read")).unwrap();
    let mut client = match started {
        Startup::Ready(client) => client,
        Startup::RunCommand(_) => panic!("the command is deferred"),
    };
    assert!(matches!(client.get_api_key(), KeyLookup::RunCommand(c) if c == "op read"));
    assert!(client.keep_command_key(&failed(b"locked")).is_err());
    assert!(matches!(client.get_api_key(), KeyLookup::RunCommand(c) if c == "op read"));
    assert_eq!(client.keep_command_key(&printed(b"secret\n")).unwrap(), "secret");
    assert_eq!(known(&client), some("secret"));
}

#[test]
fn eager_and_lazy_keys_agree() {
    let outcome = printed(b"  secret\r\n");
    let eager = LambdaClient::from_command(&outcome).unwrap();
    let mut lazy = LambdaClient::new_lazy(ApiKeySource::Command("op read".to_string()));
    lazy.keep_command_key(&outcome).unwrap();
    assert_eq!(known(&eager), known(&lazy));
    assert_eq!(known(&eager), some("secret"));
}

#[test]
fn direct_source_ignores_commands() {
    let mut client = LambdaClient::new_lazy(ApiKeySource::Direct("given".to_string()));
    client.keep_command_key(&printed(b"other")).unwrap();
    assert_eq!(known(&client), some("given"));
}

#[test]
fn empty_output_is_no_key() {
    for output in [b"".as_slice(), b" \n\t", "\u{3000}".as_bytes()] {
        assert_eq!(
            api_key_from_command(&printed(output)).unwrap_err().to_string(),
            "Failed to execute API key command: Command returned empty output"
        );
    }
    assert!(LambdaClient::from_command(&printed(b"\n")).is_err());
}

#[test]
fn failed_command_gives_its_reason() {
    assert_eq!(
        api_key_from_command(&failed(b" not signed in \n")).unwrap_err().to_string(),
        "Failed to execute API key command: Command failed: not signed in"
    );
    assert_eq!(
        api_key_from_command(&CommandOutcome::NotStarted("no such file".to_string()))
            .unwrap_err()
            .to_string(),
        "Failed to execute API key command: Failed to execute command: no such file"
    );
}

#[test]
fn output_is_read_as_utf8() {
    assert_eq!(api_key_from_command(&printed("schlüssel\n".as_bytes())).unwrap(), "schlüssel");
    assert_eq!(api_key_from_command(&printed(b"ab\xff\n")).unwrap(), "ab\u{fffd}");
}

#[test]
fn shell_depends_on_the_system() {
    let unix = command_shell(false);
    assert_eq!((unix.program, unix.flag), ("sh", "-c"));
    let windows = command_shell(true);
    assert_eq!((windows.program, windows.flag), ("cmd", "/C"));
}

#[test]
fn key_is_sent_as_bearer_token() {
    assert_eq!(authorization("secret"), "Bearer secret");
}
