//! The API key: where it comes from and how it is kept.

use crate::error::{LambdaError, LambdaFailure};
use crate::text::{trim, trimmed, trimming_strips_white_space, white_space};
use vstd::prelude::*;
use vstd::utf8::{
    decode_utf8, encode_utf8, encode_utf8_decode_utf8, encode_utf8_valid_utf8, valid_utf8,
};

verus! {

/// Source for the API key - either a direct value or a command to execute
#[derive(Debug, Clone)]
pub enum ApiKeySource {
    /// Direct API key value (already resolved)
    Direct(String),
    /// Command to execute to get the API key (lazy evaluation)
    Command(String),
}

/// What an `ApiKeySource` holds, as texts.
pub enum KeySource {
    Direct(Seq<char>),
    Command(Seq<char>),
}

impl View for ApiKeySource {
    type V = KeySource;

    open spec fn view(&self) -> KeySource {
        match *self {
            ApiKeySource::Direct(key) => KeySource::Direct(key@),
            ApiKeySource::Command(command) => KeySource::Command(command@),
        }
    }
}

/// What came of executing the key command.
#[derive(Debug)]
pub enum CommandOutcome {
    /// It ran to its end.
    Exited { success: bool, stdout: Vec<u8>, stderr: Vec<u8> },
    /// It could not be executed, for the given reason.
    NotStarted(String),
}

/// The program that executes a command line.
#[derive(Debug)]
pub struct Shell {
    pub program: &'static str,
    pub flag: &'static str,
}

/// The text that `String::from_utf8_lossy` reads from bytes.
pub uninterp spec fn lossy_text(bytes: Seq<u8>) -> Seq<char>;

/// `String::from_utf8_lossy`: the text that the bytes encode where they are valid
/// UTF-8. Otherwise the text depends on the bytes alone; where replacement
/// characters stand in it is not stated.
#[verifier::external_body]
fn decode_lossy(bytes: &Vec<u8>) -> (text: String)
    ensures
        text@ == lossy_text(bytes@),
        valid_utf8(bytes@) ==> text@ == decode_utf8(bytes@),
{
    String::from_utf8_lossy(bytes).into_owned()
}

/// The key that a command prints: its output without the white space around it.
pub open spec fn printed_key(output: Seq<char>) -> Result<Seq<char>, LambdaFailure> {
    if trimmed(output).len() == 0 {
        Err(LambdaFailure::ApiKeyCommandFailed("Command returned empty output"@))
    } else {
        Ok(trimmed(output))
    }
}

/// The key that a command yields.
pub open spec fn command_key(outcome: CommandOutcome) -> Result<Seq<char>, LambdaFailure> {
    match outcome {
        CommandOutcome::Exited { success: true, stdout, stderr } => printed_key(
            lossy_text(stdout@),
        ),
        CommandOutcome::Exited { success: false, stdout, stderr } => Err(
            LambdaFailure::ApiKeyCommandFailed(
                "Command failed: "@ + trimmed(lossy_text(stderr@)),
            ),
        ),
        CommandOutcome::NotStarted(reason) => Err(
            LambdaFailure::ApiKeyCommandFailed("Failed to execute command: "@ + reason@),
        ),
    }
}

/// A key or the failure to get one is as expected.
pub open spec fn yields(
    result: Result<String, LambdaError>,
    expected: Result<Seq<char>, LambdaFailure>,
) -> bool {
    match (result, expected) {
        (Ok(key), Ok(wanted)) => key@ == wanted,
        (Err(error), Err(failure)) => error@ == failure,
        _ => false,
    }
}

/// The shell that executes the key command.
pub fn command_shell(windows: bool) -> (shell: Shell)
    ensures
        windows ==> shell.program@ == "cmd"@ && shell.flag@ == "/C"@,
        !windows ==> shell.program@ == "sh"@ && shell.flag@ == "-c"@,
{
    if windows {
        Shell { program: "cmd", flag: "/C" }
    } else {
        Shell { program: "sh", flag: "-c" }
    }
}

/// Reads the API key from what came of executing the key command. Output in UTF-8
/// is read as the text that it encodes.
pub fn api_key_from_command(outcome: &CommandOutcome) -> (result: Result<String, LambdaError>)
    ensures
        yields(result, command_key(*outcome)),
        (outcome matches CommandOutcome::Exited { success: true, stdout, stderr } && valid_utf8(
            stdout@,
        )) ==> yields(result, printed_key(decode_utf8(outcome->stdout@))),
{
    match outcome {
        CommandOutcome::Exited { success, stdout, stderr } => {
            if *success {
                let printed = decode_lossy(stdout);
                let key = trim(printed.as_str());
                if key.is_empty() {
                    Err(
                        LambdaError::ApiKeyCommandFailed(
                            "Command returned empty output".to_owned(),
                        ),
                    )
                } else {
                    Ok(key.to_owned())
                }
            } else {
                let printed = decode_lossy(stderr);
                let mut reason = "Command failed: ".to_owned();
                reason.append(trim(printed.as_str()));
                Err(LambdaError::ApiKeyCommandFailed(reason))
            }
        },
        CommandOutcome::NotStarted(error) => {
            let mut reason = "Failed to execute command: ".to_owned();
            reason.append(error.as_str());
            Err(LambdaError::ApiKeyCommandFailed(reason))
        },
    }
}

/// A command whose output is a key with white space around it, such as the line
/// end that most commands print, yields that key.
pub proof fn printed_key_is_used(before: Seq<char>, key: Seq<char>, after: Seq<char>)
    requires
        forall|i: int| 0 <= i < before.len() ==> white_space(#[trigger] before[i]),
        forall|i: int| 0 <= i < after.len() ==> white_space(#[trigger] after[i]),
        key.len() > 0,
        !white_space(key[0]),
        !white_space(key.last()),
    ensures
        valid_utf8(encode_utf8(before + key + after)),
        printed_key(decode_utf8(encode_utf8(before + key + after))) == Ok::<
            Seq<char>,
            LambdaFailure,
        >(key),
{
    encode_utf8_valid_utf8(before + key + after);
    encode_utf8_decode_utf8(before + key + after);
    trimming_strips_white_space(before, key, after);
}

/// A command that succeeds yields what stands between the white space around its output,
/// whatever it prints as errors, and fails where nothing does.
pub proof fn successful_command_yields_its_output(
    stdout: Vec<u8>,
    stderr: Vec<u8>,
    before: Seq<char>,
    inner: Seq<char>,
    after: Seq<char>,
)
    requires
        lossy_text(stdout@) == before + inner + after,
        forall|i: int| 0 <= i < before.len() ==> white_space(#[trigger] before[i]),
        forall|i: int| 0 <= i < after.len() ==> white_space(#[trigger] after[i]),
        inner.len() > 0 ==> !white_space(inner[0]) && !white_space(inner.last()),
    ensures
        inner.len() > 0 ==> command_key(CommandOutcome::Exited { success: true, stdout, stderr })
            == Ok::<Seq<char>, LambdaFailure>(inner),
        inner.len() == 0 ==> command_key(CommandOutcome::Exited { success: true, stdout, stderr })
            == Err::<Seq<char>, LambdaFailure>(
            LambdaFailure::ApiKeyCommandFailed("Command returned empty output"@),
        ),
{
    trimming_strips_white_space(before, inner, after);
}

/// A command that fails yields no key, whatever it prints as output, and its failure gives
/// what stands between the white space around its errors. One that could not be executed
/// gives the reason.
pub proof fn failed_command_yields_its_errors(
    stdout: Vec<u8>,
    stderr: Vec<u8>,
    before: Seq<char>,
    inner: Seq<char>,
    after: Seq<char>,
    reason: String,
)
    requires
        lossy_text(stderr@) == before + inner + after,
        forall|i: int| 0 <= i < before.len() ==> white_space(#[trigger] before[i]),
        forall|i: int| 0 <= i < after.len() ==> white_space(#[trigger] after[i]),
        inner.len() > 0 ==> !white_space(inner[0]) && !white_space(inner.last()),
    ensures
        command_key(CommandOutcome::Exited { success: false, stdout, stderr }) == Err::<
            Seq<char>,
            LambdaFailure,
        >(LambdaFailure::ApiKeyCommandFailed("Command failed: "@ + inner)),
        command_key(CommandOutcome::NotStarted(reason)) == Err::<Seq<char>, LambdaFailure>(
            LambdaFailure::ApiKeyCommandFailed("Failed to execute command: "@ + reason@),
        ),
{
    trimming_strips_white_space(before, inner, after);
}

/// A result that is as expected is that very key, or an error with that very failure.
pub proof fn yielded_key_is_the_expected_one(
    result: Result<String, LambdaError>,
    expected: Result<Seq<char>, LambdaFailure>,
)
    requires
        yields(result, expected),
    ensures
        result is Ok <==> expected is Ok,
        result is Ok ==> result->Ok_0@ == expected->Ok_0,
        result is Err ==> result->Err_0@ == expected->Err_0,
{
}

} // verus!
