# kiln_gateway

The verified core of an inference gateway: one process in front of local model
workers that speaks the chat-completions, completions and messages protocols,
supervises the workers, keeps their memory within a budget, limits requests per
key, offers the tools of MCP servers to the models, and exposes an admin API.

Everything the gateway decides or computes stands in `src/`, with contracts that
Verus proves: which request is let in and why another is refused, what a
response or a stream of events holds, when a worker is started, restarted or
unloaded, and how much memory each load may take. `app/` is the process around
it: sockets, child processes, files, clocks and the async runtime.

## Layout

| Where | What |
| --- | --- |
| `src/config.rs`, `src/defaults.rs`, `src/config_write.rs` | the configuration, its rules, and adding a model to its file |
| `src/auth.rs`, `src/digest.rs`, `src/ratelimit.rs`, `src/cors.rs` | who is let in, and how often |
| `src/lifecycle.rs`, `src/sysmem.rs`, `src/status.rs` | the memory ledger and the models' states |
| `src/supervisor.rs`, `src/worker.rs` | worker processes: start, health, restart, drain |
| `src/registry.rs`, `src/paths.rs` | the models that are served |
| `src/openai.rs`, `src/completions.rs`, `src/chat.rs`, `src/chat_flow.rs` | the chat and text completion endpoints |
| `src/anthropic.rs`, `src/messages.rs`, `src/message_flow.rs` | the messages endpoint |
| `src/prompt.rs`, `src/timeout.rs` | what is handed to a template and a worker, and the time limits |
| `src/mcp.rs`, `src/mcp_wire.rs` | MCP servers: tools, calls, supervision, framing |
| `src/admin.rs`, `src/admin_models.rs`, `src/admin_register.rs`, `src/ui.rs` | the admin API and pages |
| `src/app.rs`, `src/error.rs`, `src/metrics.rs`, `src/metric_store.rs` | health, errors, metrics and their exposition |
| `src/json.rs`, `src/text.rs`, `src/scan.rs`, `src/float.rs` | JSON values, text, searching, floats by their bits |
| `tests/` | the library on concrete values |

What the library takes on trust is marked `external_body`, `uninterp` or
`assume_specification`: JSON values, password and content hashes, random
identifiers, the metric registry, TOML documents, gRPC status codes, and a few
functions of the standard library. Each such item says what it claims.

Public proof functions whose names start with `law_` state what holds across
functions.

Floating-point values never enter the library: sampling parameters are carried
by their bits, and rates and times are integers.
