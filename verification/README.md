# codexhub

The decision logic of CodexHub, a desktop companion that routes Codex
traffic through a local AI gateway and bridges it to IM platforms
(Feishu, Telegram, WeChat, WeCom), written in Verus with its contracts
proved.

Layout:

- `src/` — the verified library. Among its parts: the configuration model
  and its account migrations (`config`), request routing and failure
  cool-down (`routing_state`), tool-name encoding (`tool_names`), the
  Responses ⇄ Chat Completions conversions (`chat_request`,
  `chat_to_responses`, `responses_to_chat`, `input_items`, `chat_tools`,
  `output_schema`), the streaming state machine and its laws
  (`stream_state`, `stream_model`, `stream_laws`), the event router and
  dashboard, the bridge's start plan and listener policy (`bridge_plan`),
  and the enhanced-launch sequence (`codex_app_enhanced`).
- `tests/` — tests on concrete values, run against the compiled library.
- `app/` — the unverified edges: files, environment, argument parsing and
  the line loops over streamed bytes, which hand plain values to the library.

Calls into `serde_json`, `toml`, `sha2`, `uuid` and a few std path and
clock functions stand behind trusted wrappers whose doc comments say what
is assumed of them.
