//! The client: its key and the calls it makes.

use crate::error::{LambdaError, LambdaFailure};
use crate::key::{
    api_key_from_command, command_key, yields, ApiKeySource, CommandOutcome, KeySource,
};
use crate::text::opt_text;
use vstd::prelude::*;

verus! {

/// Lambda API client
#[derive(Debug)]
pub struct LambdaClient {
    api_key_source: ApiKeySource,
    /// Cached API key (used for lazy evaluation)
    cached_api_key: Option<String>,
}

/// What a client knows of its key.
pub struct KeyState {
    pub source: KeySource,
    pub cached: Option<Seq<char>>,
}

impl View for LambdaClient {
    type V = KeyState;

    closed spec fn view(&self) -> KeyState {
        KeyState { source: self.api_key_source@, cached: opt_text(self.cached_api_key) }
    }
}

/// Where the key for a call comes from.
#[derive(Debug)]
pub enum KeyLookup {
    /// The key is known.
    Known(String),
    /// The command has to be executed first.
    RunCommand(String),
}

/// A lookup, as texts.
pub enum Lookup {
    Known(Seq<char>),
    RunCommand(Seq<char>),
}

impl View for KeyLookup {
    type V = Lookup;

    open spec fn view(&self) -> Lookup {
        match *self {
            KeyLookup::Known(key) => Lookup::Known(key@),
            KeyLookup::RunCommand(command) => Lookup::RunCommand(command@),
        }
    }
}

/// How a client comes to be.
#[derive(Debug)]
pub enum Startup {
    /// The client is ready.
    Ready(LambdaClient),
    /// The command has to be executed first.
    RunCommand(String),
}

/// A startup, as texts.
pub enum Start {
    Ready(KeyState),
    RunCommand(Seq<char>),
}

impl View for Startup {
    type V = Start;

    open spec fn view(&self) -> Start {
        match *self {
            Startup::Ready(client) => Start::Ready(client@),
            Startup::RunCommand(command) => Start::RunCommand(command@),
        }
    }
}

/// A client that was given its key.
pub open spec fn with_key(key: Seq<char>) -> KeyState {
    KeyState { source: KeySource::Direct(key), cached: None }
}

/// A client that executes a command for its key when it first needs it.
pub open spec fn with_command(command: Seq<char>) -> KeyState {
    KeyState { source: KeySource::Command(command), cached: None }
}

/// What the two environment variables and the choice of laziness lead to. A
/// variable that is set to an empty text counts as not set.
pub open spec fn startup(
    lazy: bool,
    key: Option<Seq<char>>,
    command: Option<Seq<char>>,
) -> Result<Start, LambdaFailure> {
    if key is Some && key->0.len() > 0 {
        Ok(Start::Ready(with_key(key->0)))
    } else if command is Some && command->0.len() > 0 {
        if lazy {
            Ok(Start::Ready(with_command(command->0)))
        } else {
            Ok(Start::RunCommand(command->0))
        }
    } else {
        Err(LambdaFailure::ApiKeyNotSet)
    }
}

/// Where the key for the next call comes from.
pub open spec fn lookup(state: KeyState) -> Lookup {
    match state.source {
        KeySource::Direct(key) => Lookup::Known(key),
        KeySource::Command(command) => match state.cached {
            Some(key) => Lookup::Known(key),
            None => Lookup::RunCommand(command),
        },
    }
}

/// The client after the command was executed: it keeps the key it got.
pub open spec fn after_command(state: KeyState, outcome: CommandOutcome) -> KeyState {
    match command_key(outcome) {
        Ok(key) => KeyState { source: state.source, cached: Some(key) },
        Err(_) => state,
    }
}

/// A startup is as expected.
pub open spec fn starts(
    result: Result<Startup, LambdaError>,
    expected: Result<Start, LambdaFailure>,
) -> bool {
    match (result, expected) {
        (Ok(startup), Ok(wanted)) => startup@ == wanted,
        (Err(error), Err(failure)) => error@ == failure,
        _ => false,
    }
}

impl LambdaClient {
    /// Create a client with the given API key
    pub fn new(api_key: String) -> (client: Self)
        ensures
            client@ == with_key(api_key@),
    {
        LambdaClient { api_key_source: ApiKeySource::Direct(api_key), cached_api_key: None }
    }

    /// Create a client with a lazy API key source (command executed on first use)
    pub fn new_lazy(api_key_source: ApiKeySource) -> (client: Self)
        ensures
            client@ == (KeyState { source: api_key_source@, cached: None }),
    {
        LambdaClient { api_key_source, cached_api_key: None }
    }

    /// Create a client from the values of the environment variables for the API key.
    ///
    /// Checks in order:
    /// 1. `LAMBDA_API_KEY` - Direct API key
    /// 2. `LAMBDA_API_KEY_COMMAND` - Command to execute to get the API key (e.g., `op read op://vault/lambda/api-key`)
    ///
    /// If `LAMBDA_API_KEY_COMMAND` is used, the command has to be executed at once.
    pub fn from_env(key: Option<String>, command: Option<String>) -> (result: Result<
        Startup,
        LambdaError,
    >)
        ensures
            starts(result, startup(false, opt_text(key), opt_text(command))),
    {
        Self::from_env_with_options(false, key, command)
    }

    /// Create a client from the values of the environment variables for the API key
    /// with options.
    ///
    /// If `lazy` is true and `LAMBDA_API_KEY_COMMAND` is used, the command execution
    /// is deferred until the first API request.
    pub fn from_env_with_options(
        lazy: bool,
        key: Option<String>,
        command: Option<String>,
    ) -> (result: Result<Startup, LambdaError>)
        ensures
            starts(result, startup(lazy, opt_text(key), opt_text(command))),
    {
        if let Some(key) = key {
            if !key.as_str().is_empty() {
                return Ok(Startup::Ready(Self::new(key)));
            }
        }
        if let Some(command) = command {
            if !command.as_str().is_empty() {
                if lazy {
                    return Ok(Startup::Ready(Self::new_lazy(ApiKeySource::Command(command))));
                } else {
                    return Ok(Startup::RunCommand(command));
                }
            }
        }
        Err(LambdaError::ApiKeyNotSet)
    }

    /// Create a client with the key that the command yielded.
    pub fn from_command(outcome: &CommandOutcome) -> (result: Result<Self, LambdaError>)
        ensures
            match (result, command_key(*outcome)) {
                (Ok(client), Ok(key)) => client@ == with_key(key),
                (Err(error), Err(failure)) => error@ == failure,
                _ => false,
            },
    {
        match api_key_from_command(outcome) {
            Ok(key) => Ok(Self::new(key)),
            Err(error) => Err(error),
        }
    }

    /// Get the API key, or the command that has to be executed for it (lazy evaluation)
    pub fn get_api_key(&self) -> (found: KeyLookup)
        ensures
            found@ == lookup(self@),
    {
        match &self.api_key_source {
            ApiKeySource::Direct(key) => KeyLookup::Known(key.clone()),
            ApiKeySource::Command(command) => match &self.cached_api_key {
                Some(key) => KeyLookup::Known(key.clone()),
                None => KeyLookup::RunCommand(command.clone()),
            },
        }
    }

    /// Takes the key from what came of executing the command, and keeps it.
    pub fn keep_command_key(&mut self, outcome: &CommandOutcome) -> (result: Result<
        String,
        LambdaError,
    >)
        ensures
            yields(result, command_key(*outcome)),
            final(self)@ == after_command(old(self)@, *outcome),
    {
        match api_key_from_command(outcome) {
            Ok(key) => {
                self.cached_api_key = Some(key.clone());
                Ok(key)
            },
            Err(error) => Err(error),
        }
    }
}

/// A key that was given directly is used for every call, without a command.
pub proof fn direct_key_is_used(key: Seq<char>)
    ensures
        lookup(with_key(key)) == Lookup::Known(key),
{
}

/// `LAMBDA_API_KEY` goes before `LAMBDA_API_KEY_COMMAND`: where it is set, the
/// command is of no account, lazily or not.
pub proof fn direct_key_goes_first(
    lazy: bool,
    key: Seq<char>,
    command: Option<Seq<char>>,
)
    requires
        key.len() > 0,
    ensures
        startup(lazy, Some(key), command) == Ok::<Start, LambdaFailure>(
            Start::Ready(with_key(key)),
        ),
{
}

/// A lazy client executes its command for the first call and for no later one: once
/// the command has yielded a key, that key is used.
pub proof fn command_runs_once(command: Seq<char>, outcome: CommandOutcome)
    requires
        command_key(outcome) is Ok,
    ensures
        lookup(with_command(command)) == Lookup::RunCommand(command),
        lookup(after_command(with_command(command), outcome)) == Lookup::Known(
            command_key(outcome)->Ok_0,
        ),
{
}

/// Executing the command at startup or on first use makes no difference to the key.
pub proof fn lazy_and_eager_agree(command: Seq<char>, outcome: CommandOutcome)
    requires
        command_key(outcome) is Ok,
    ensures
        lookup(after_command(with_command(command), outcome)) == lookup(
            with_key(command_key(outcome)->Ok_0),
        ),
{
}

/// A command that fails is executed again for the next call.
pub proof fn failed_command_runs_again(command: Seq<char>, outcome: CommandOutcome)
    requires
        command_key(outcome) is Err,
    ensures
        lookup(after_command(with_command(command), outcome)) == Lookup::RunCommand(command),
{
}

/// Without a key the command is what counts: it is executed at startup, or kept for the
/// first call where that is to be lazy. A variable that is empty is as good as one that is
/// not set, and without either there is no client.
pub proof fn startup_goes_by_the_variables(lazy: bool, key: Seq<char>, command: Seq<char>)
    ensures
        startup(lazy, Some(Seq::empty()), Some(command)) == startup(lazy, None, Some(command)),
        startup(lazy, Some(key), Some(Seq::empty())) == startup(lazy, Some(key), None),
        startup(lazy, None, None) == Err::<Start, LambdaFailure>(LambdaFailure::ApiKeyNotSet),
        startup(lazy, None, Some(Seq::empty())) == startup(lazy, None, None),
        command.len() > 0 ==> startup(false, None, Some(command)) == Ok::<Start, LambdaFailure>(
            Start::RunCommand(command),
        ),
        command.len() > 0 ==> {
            &&& startup(true, None, Some(command)) is Ok
            &&& startup(true, None, Some(command))->Ok_0 is Ready
            &&& lookup(startup(true, None, Some(command))->Ok_0->Ready_0) == Lookup::RunCommand(
                command,
            )
        },
        key.len() > 0 ==> {
            &&& startup(lazy, Some(key), Some(command)) is Ok
            &&& startup(lazy, Some(key), Some(command))->Ok_0 is Ready
            &&& lookup(startup(lazy, Some(key), Some(command))->Ok_0->Ready_0) == Lookup::Known(
                key,
            )
        },
{
}

/// A client that has got a key uses that one for further calls, and a command that fails
/// later does not take it away. A key that was given directly stays the one in use.
pub proof fn kept_key_stays_in_use(state: KeyState, outcome: CommandOutcome, later: CommandOutcome)
    requires
        command_key(outcome) is Ok,
        command_key(later) is Err,
    ensures
        lookup(after_command(after_command(state, outcome), later)) == lookup(
            after_command(state, outcome),
        ),
        lookup(after_command(state, outcome)) is Known,
        state.source is Command ==> lookup(after_command(state, outcome)) == Lookup::Known(
            command_key(outcome)->Ok_0,
        ),
        state.source matches KeySource::Direct(key) ==> lookup(after_command(state, outcome))
            == Lookup::Known(key),
{
}

/// A startup that is as expected is that very client or command, or that very failure.
pub proof fn startup_is_the_expected_one(
    result: Result<Startup, LambdaError>,
    expected: Result<Start, LambdaFailure>,
)
    requires
        starts(result, expected),
    ensures
        result is Ok <==> expected is Ok,
        result is Err ==> result->Err_0@ == expected->Err_0,
        result matches Ok(Startup::Ready(client)) ==> expected == Ok::<Start, LambdaFailure>(
            Start::Ready(client@),
        ),
        result matches Ok(Startup::RunCommand(command)) ==> expected == Ok::<Start, LambdaFailure>(
            Start::RunCommand(command@),
        ),
{
}

/// What a look-up shows is the very key or command that it holds.
pub proof fn lookup_shows_what_it_holds(text: String)
    ensures
        KeyLookup::Known(text)@ == Lookup::Known(text@),
        KeyLookup::RunCommand(text)@ == Lookup::RunCommand(text@),
        ApiKeySource::Direct(text)@ == KeySource::Direct(text@),
        ApiKeySource::Command(text)@ == KeySource::Command(text@),
{
}

} // verus!
