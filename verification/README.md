# lite_agent

A library for agents that talk to a language model in turns: threads and their
items, what a model is shown of them, the steps of a turn, suspensions and their
resumption, the functions a model may call, and the sandboxes commands run in.

The library under `src/` is verified with Verus. It decides and never acts: a
turn is a machine that is told what came of the last action and names the next
one. `app/` does the acting, with stores on disk, models over HTTP, processes in
namespaces and a conversation on the terminal.

- `src/kernel`: threads, turns, items, revisions and the projection of a thread
- `src/runtime`: turns with suspensions and traces, resumption, contexts with
  summaries, sessions and commits by revision
- `src/agent_core`: turns with single items, contexts, stored threads, requests
  and streamed replies of a chat model
- `src/lite`: the small agent, which asks for whole answers
- `src/tools`: paths, sandbox policies, the command tool and the time tool
- `src/tools_native`: what Linux namespaces and macOS Seatbelt make of a policy
- `src/observability.rs`, `src/repl.rs`: names of logs and traces, the terminal
- `src/json.rs`, `src/text.rs`, `src/ids.rs`, `src/clock.rs`: what is taken from
  `serde_json`, `chrono` and the standard library, with the contracts it is
  taken by
- `tests/`: the library at work on concrete values

Every executable function states its result over the views of its arguments; of
a reading of the clock, only what holds at any time. The functions whose names
start with `law_` state what holds of the library as a whole.
