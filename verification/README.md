# glowbot

The decision logic of GlowBot, a Telegram assistant bot, as a Verus-verified
library, with the parts that touch the outside world kept apart.

- `src/` — the verified library: configuration lookups and validation, where
  an incoming message goes, command parsing, permissions and replies (with the `/tasks` and `/reminders`
  listings), the first and last steps of every tool call, the decision
  step of the loop that alternates model calls and tools (for messages,
  reminders and the heartbeat's task cycle), the image tool's checks and
  answer, the routing of MCP tool calls, routing specifiers and model-change
  proposals, a chat's model overrides, stop signals and pending proposals, the
  model picker (callbacks, browsing pages, stable sorting, detail views),
  approvals of proposed changes, the heartbeat's task choice and prompts, message preparation for storage and search, splitting
  replies into Telegram-sized messages, the Codex endpoint, event-stream framing
  and token reading, and media helpers. Calls into `base64`, `serde_json`,
  `chrono`, `similar` and the standard library's clock go through small trusted
  wrappers whose contracts are stated next to them.
- `tests/` — tests of the library on concrete values.
- `app/` — unverified glue: the configuration file (serde copies of the
  configuration types), running shell commands, walking the media directory,
  reading Codex responses, the loops that carry out the library's steps, and
  the floating-point helpers.
