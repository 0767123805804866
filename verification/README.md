# aum

Token accounting for coding agents, written in Verus.

Agents write transcripts. `aum` reads them and says how many tokens were spent,
what that would have cost, and how certain each figure is. A number is never
presented as more certain than the measurements behind it: what was not measured
is unavailable rather than zero, and a total with a missing part is a floor that
says so.

## Layout

- `src/` is the library, every item of it verified.
  - Measurements: `measurement`, `tokens`, `native`, `token_usage`.
  - Reading: `tailer`, `scan`, `paths`, `probe`, `adapters`, `claude_code`,
    `codex` with `reconcile`, `copilot`, `ingest`, `desktop`, `agents`.
  - Storing: `repo`, `usage`, `assoc`.
  - Money: `decimal`, `nano`, `money`, `table`, `pricing`, `fx`, `prices`.
  - Showing: `metrics`, `views`, `compare`, `dto`, `events`, `handshake`, `names`.
  - Tasks: `tasks`, `launch`, `procmon`.
  - Ground: `text`, `time`, `ids`, `json`, `bytes`.
- `tests/` runs the library on concrete values.
- `app/` is ordinary Rust around it: files, processes, SQLite, and JSON.

## What is proved

Each function states what it returns for every input it accepts. Laws that span
several functions are public proof functions whose names begin with `law_`:
that reading a file in pieces is reading it whole, that reading any agent's file
again from its start changes nothing stored, that a session belongs to one task,
that a new price leaves what is looked up at an earlier instant as it is, that a
cost is never exact, and others beside the code that they are about.

What is believed rather than proved stands in small wrappers marked
`external_body`, each with a comment that names the outside function and what
is claimed of it: decimal arithmetic (`rust_decimal`), times (`chrono`), byte
search (`memchr`), JSON text (`serde_json`), identifiers (`uuid`), and two
comparisons of strings of the standard library.
