# remotty

remotty bridges a Telegram bot and Codex CLI: messages from paired Telegram
users start or continue Codex turns in a registered project, approval and
input requests come back as Telegram messages, and `/approve`, `/deny` and
`/answer` resolve them.

## Layout

- `src/` is the library, written in Verus, and Verus proves the contracts
  of its functions: command-line and chat-command parsing, the
  configuration and its validation, workspace registration in the
  `bridge.toml` document, the approval
  request store's status rules, the app-server protocol (requests, replies
  and the step function of a running turn), pairing, and the texts the bot
  sends. Calls into `url`, `uuid`, `rand` and the standard library's path
  functions go through small trusted wrappers whose doc comments say what is
  assumed of them.
- `app/` is the program around the library: argument dispatch, files and
  TOML text, the SQLite store, the Telegram HTTP client, the Codex child
  processes, the Windows service and the async loops. Where it acts on a
  decision, the library makes the decision and app/ carries it out.
- `tests/` runs the library on concrete inputs.

## Commands

```
remotty [--config <path>]
remotty remote-control [--config <path>] [--workspace <path>]
remotty config workspace upsert [--config <path>] [--workspace <path>]
    (default config: %APPDATA%\remotty\bridge.toml)
remotty telegram configure|pair|access-pair <code>|policy allowlist|live-env-check|smoke approval <accept|decline> [--config <path>]
remotty service install [--config <path>] | run --config <path> | start | stop | status | uninstall
remotty secret set <key> <value> | delete <key>
```
