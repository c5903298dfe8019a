# voci

A German ↔ English dictionary lookup for the terminal. WikDict is the default provider
(local SQLite dictionaries, no account needed); Microsoft Translator's Dictionary Lookup is
optional. Every lookup attempt is kept in a local history that can be listed, searched and
reused.

## Layout

- `src/` is the library, verified with Verus. Each public function states what it returns
  in its contract, and the properties that relate several functions are proof functions
  (`lemma_*`).
  - `domain`, `lookup`, `service`, `session`, `outcome`, `presentation`: requests, validation,
    language resolution, what history records, and what is printed.
  - `wikdict`, `microsoft`: turning dictionary rows and provider replies into results.
  - `config`, `history`, `completion`, `setup`, `release`: settings, history pages, shell
    completion, completion set-up files, and build/package names.
  - `keybindings`, `navigation`, `input`, `panes`: the keymap and key-sequence resolver, and
    the decisions of the terminal interface (focus, panes, dialogs, undo, word motions, and
    answers that arrive out of order).
  - `screen`, `runtime`: what the terminal interface shows (layout sizes, every pane's text,
    the details viewport and its rows) and its run loop as decisions (what each background
    answer changes, which lookups are told to stop, which reads follow).
  - `strings`, `text`, `unicode`, `ordering`: character-level helpers, terminal-safe text,
    normalization and case folding, and orderings.
- `app/` is the `voci` command: argument parsing, HTTP, SQLite, files and output, around the
  library. `voci shell` opens the terminal interface: `app/tui` draws with ratatui, reads
  keys with crossterm, keeps the edtui text inputs and the desktop clipboard, and runs
  background jobs with tokio, doing what the library decides. Pane titles carry their
  numbers; in pane mode the digits 1 to 5 focus a pane (or a filter field). Keybinding
  profiles are read from the path that `[tui].keybindings` names (relative to the
  configuration's directory); preset profile files are not installed. The completion set-up
  files that `setup::setup` plans are not written by this command.
- `tests/` exercise the library with the real outside crates linked.
