# lambda_cli

A client library for the [Lambda](https://lambda.ai/) GPU cloud API and an MCP server
built on it. The library is written in Verus: what each function does is stated in its
contract and proved.

- `src/` decides and computes. It builds the requests and says what their answers mean
  (`request`, `reply`, `calls`, `error`, `http`, `json`), looks after the API key
  (`key`, `client`), runs a launch from reply to reply (`launch`), tells image ids from
  families and groups images (`image`, `version`, `builds`), waits for an instance
  (`poll`), and words everything that is shown (`report`, `service`). `order`, `text`
  and `types` are what the rest stands on.
- `app/` is the server `lambda-mcp`: it executes the key command, sends the requests,
  parses JSON, looks at the clock and sends notifications.
- `tests/` runs the library.

## What is taken on trust

Contracts of outside functions that Verus does not read, each with a comment on what it
claims: building `serde_json` values (`src/json.rs`), showing a status of `reqwest`
(`src/http.rs`), and from the standard library `String::push` (`src/text.rs`),
`char::to_lowercase` (`src/image.rs`) and `String::from_utf8_lossy` (`src/key.rs`).

## Configuration

`LAMBDA_API_KEY` holds the API key. Without it `LAMBDA_API_KEY_COMMAND` is executed, and
what it prints is the key: on first use, or at startup with `--eager`.

Notifications go to the channels that `LAMBDA_NOTIFY_SLACK_WEBHOOK`,
`LAMBDA_NOTIFY_DISCORD_WEBHOOK`, or `LAMBDA_NOTIFY_TELEGRAM_BOT_TOKEN` with
`LAMBDA_NOTIFY_TELEGRAM_CHAT_ID` configure.
