# codex_enhanced

The optional runtime around an agent loop, with its behaviour stated in contracts
and proved by Verus. Every feature has a switch; with all switches off the runtime
changes nothing.

It has three ports:

- **Tool reliability.** A provider's tool call is executed at most once and its
  result reaches the model at most once. A different call under a known identifier
  fails closed. Three identical results in a row are pointed out to the model.
- **Context recovery.** Long tool results are cut in the middle when the prompt
  nears its window. The cut texts are remembered and shown again in later prompts,
  and a request that overflows is sent again at most once.
- **Bounded continuation.** A turn that stops with its plan unfinished goes on by
  itself, at most twice until the user speaks.

## Layout

`src/` is the library.

| Modules | What they hold |
| --- | --- |
| `config`, `runtime`, `lockfile` | switches and profiles, the state of a session, pinned versions |
| `tool_reliability`, `tool_observation`, `replay`, `call_ids` | the ledger of calls, repetitions, replays in a prompt |
| `context_pruner`, `context_projection`, `context_recovery` | cutting, remembering, deciding on compaction and retries |
| `bounded_continuation`, `hooks` | budgets, and the hooks that the switches guard |
| `response_items` | prompts and the surfaces that are made of them |
| `seams` | where the agent loop calls in; `seams::session` states what holds of a session as a whole |
| `telemetry`, `notifications`, `reporting`, `debug_log`, `relay` | events, what is reported of them, the rotating log, remote control |
| `digest`, `text`, `search` | digests, texts, and the first or last item with a property |

Every type has a model (`ToolCallLedger` and `ToolCallLedgerView`), and contracts
speak of the models. What holds across several functions is stated by the public
proof functions whose names start with `law_`.

Digests (`sha2`, `hex`) and JSON (`serde_json`) come from outside; the functions
that call them say what is relied on.

`app/` reads and writes files, the environment and sockets, and hands plain values
to the library. `tests/` runs the library on concrete values.
