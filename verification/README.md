# onec-buddy-mcp

A local MCP server that answers questions about 1C:Enterprise development with the help
of the service at `https://code.1c.ai`. It speaks MCP over its standard input and output
and opens no port.

## Layout

- `src/` is the library, written in Verus. Every function states its contract in
  `requires` and `ensures`; what the library promises as a whole stands in public proof
  functions beside the code that they speak of.
  - `config`, `log_filter`: the settings, their bounds and the token.
  - `error`, `limits`: failures that may be shown, and fixed limits.
  - `json`, `json_text`, `strings`, `encoding`: JSON trees and text.
  - `mcp`: frames, request identifiers, the tool catalog with its schemas, instructions
    for the assistant, and replies.
  - `naparnik`: requests to the service, retries, event streams, the assistant's answers
    and the rounds of internal tool calls.
- `app/` is the program around it: arguments, environment, files, HTTP, stdio and the
  async runtime.
- `tests/` runs the library together with the crates that it calls.

What the library takes from other crates (`serde_json`, `rmcp`, `url`, `httpdate`,
`icu_normalizer`, `icu_properties`, `tracing-subscriber`) stands behind small functions
marked `#[verifier::external_body]`. The comment above each says what is relied on.

## Settings

| Variable | Meaning |
|---|---|
| `ONEC_AI_TOKEN` or `ONEC_AI_TOKEN_FILE` | the token, or the absolute path of a file that holds it |
| `MCP_TOOL_INPUT_MIN_LENGTH`, `MCP_TOOL_INPUT_MAX_LENGTH` | the lengths that tool inputs may have |
| `MCP_TOOL_CALL_MODE` | `direct` or `standard` |
| `MCP_MAX_CONCURRENT_CALLS` | one or two |
| `ONEC_AI_UI_LANGUAGE`, `ONEC_AI_PROGRAMMING_LANGUAGE` | languages of the conversation |
| `DEFAULT_SSL_VERSION`, `DEFAULT_1C_CONFIGURATION` | defaults for the context of a question |
| `RUST_LOG` | the filter of the technical log |
