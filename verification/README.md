# forge

The core of an AI coding assistant, verified with Verus: the logic that
decides, parses and edits is proved against its contracts, and the I/O
around it stays in ordinary Rust.

## Layout

- `src/` — the verified library.
  - `fs_replace` parses SEARCH/REPLACE diffs and applies them to file
    content; `text` holds the character-level helpers it rests on.
  - `command` reads typed lines as commands (`/new`, `/config set k v`, …).
  - `autocomplete` is the prompt's editing and suggestion state machine.
  - `orch` holds the workflow variables, the tools offered to agents, tool
    call routing and the transform and round decisions of an agent run.
  - `ui` decides what each command and each streamed chat response does to
    the session and the console.
  - `streamer` collects a command's output and turns it into text.
  - `ides`, `chat_request`, `permission`, `walker`, `tool`, `style`: smaller
    pieces.
- `tests/` — tests of the library with the real outside crates linked.
- `app/` — file and process I/O, directory walks, the terminal prompt and
  console, and the serde forms of tool arguments.
