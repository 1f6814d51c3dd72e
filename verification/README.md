# reinject

Context that a hook injects into a long assistant session drifts out of the
model's reach as the session grows. `reinject` decides when it has to be
injected again: enough text has come since the last injection, the last
injection sits in the middle of the context, or the context was compacted.

The library in `src/` is verified with Verus. It computes and never touches a
file; the program in `app/` reads and writes the files around it.

| Module       | Holds |
|--------------|-------|
| `transcript` | from the bytes of a JSONL transcript to the lines to parse |
| `parser`     | text byte counts and token usage of parsed lines |
| `monitor`    | running totals of a session |
| `state`      | the state files: their text and the directory that holds them |
| `throttle`   | the decision whether a hook is to inject |
| `types`      | thresholds and decisions |
| `output`     | the JSON that a hook prints |
| `cli`        | what arguments and hook input call for |
| `text`       | lines, white space, decimal numbers |
| `json`       | what comes from `serde_json` |

Proof functions whose names begin with `law_` state what holds across
functions.

## State files

A status file holds two numbers, each on its own line: non-thinking and
thinking text bytes. A third line holds the tokens in the context window, where
the transcript reports them. `monitor-status` holds the totals of the session,
a file per hook what the totals were when the hook last injected, and
`monitor-offset` how far the transcript has been read.

The directory of a session is `/tmp/<host>-reinject-<session>`, where `<host>` is
the command name, in lower case, of the assistant that runs the hooks. The program
takes it from `REINJECT_HOST`; where that is not set it is `assistant`. Set it
where shell hooks read the same state.
