# manbo

The logic of the shells around the Manbo (曼波) Chinese input method, written in Verus
and proved against its contracts: the command-line tool that looks pinyin up and evaluates
the ranking, and the macOS input method's session, menus and settings.

The engine itself (dictionaries, ranking, translation, learning, prediction) lives in the
Manbo core crates; the library decides and formats everything the shells do around it.

## Layout

- `src/` — the verified library:
  - `text` — views of `str::trim`, `str::lines`, splitting and joining, and the loops that
    compute them;
  - `extract`, `pair`, `eval` — the sentence evaluation: clauses of a text, the frozen
    sentence-set format, the set of sentences and the scores;
  - `replay` — counting a replay of the input log;
  - `tuning`, `repl`, `display`, `sync` — the command-line tool's settings, interactive
    commands, candidate layout and sync schedule;
  - `session`, `candidate`, `row`, `preedit`, `cloud`, `menu`, `indicator` — the candidate
    window's state and what it draws;
  - `paths`, `bundle`, `dictionaries`, `env_file`, `diagnostics`, `settings`, `logs`,
    `register`, `client` — the input method's files, settings and registration.
- `tests/` — tests of the library.
- `app/` — the command-line program: arguments, files, the terminal and the engine.
