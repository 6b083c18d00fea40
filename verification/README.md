# llm-hub

A local gateway in front of several OpenAI-compatible providers, each with any
number of API keys. Clients talk to one address; the gateway picks a backend by
the model that a request names, keeps to one key until that key is spent, and
fails over to the next key or the next backend.

The decisions are a library whose contracts are proved with
[Verus](https://github.com/verus-lang/verus). A thin program around it does the
input and output.

## Layout

| Path | Contents |
| ---- | -------- |
| `src/config.rs` | backends and the configuration |
| `src/resolver.rs` | which backends and keys to try for a model, and their health |
| `src/proxy.rs` | the failover of one request, step by step |
| `src/server.rs`, `src/worker.rs` | requests to jobs, events to responses |
| `src/catalog.rs`, `src/fetch.rs` | lists of models, and how one is fetched |
| `src/admin.rs`, `src/editor.rs`, `src/csv.rs` | the configuration editor |
| `src/screen.rs`, `src/width.rs` | what the editor shows |
| `src/cli.rs` | what the command line asks for |
| `src/json.rs`, `src/http.rs`, `src/payload.rs`, `src/clock.rs` | the boundary to `serde_json`, `http`, `bytes` and the clock |
| `src/text.rs`, `src/seqs.rs` | texts and sequences |
| `src/laws/` | what holds of the library as a whole |
| `app/` | the program: command line, settings file, HTTP server, terminal |
| `tests/` | tests of the compiled library |

Time is a count of nanoseconds on the clock of a resolver. A function that reads
the clock states what holds at some time; beside it stands one that takes the
time and states exactly what it does.
