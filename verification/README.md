# russee

An interactive terminal finder (`rsc`) with two modes: a fuzzy file finder and a
grep-style content search with an fzf-style extended query syntax, a live
syntax-highlighted preview, and "print the selection and exit" for shell pipelines.

## Layout

- `src/` — the library, verified with Verus. Every public function states its
  behaviour in `requires`/`ensures` over mathematical models (`Seq<char>` for
  text), and the library's laws are proof functions beside the code they are
  about.
  - `text` — character-level string operations (substring search, whitespace
    splitting, replacement, decimal rendering, ASCII case folding).
  - `query` — parsing and matching the extended content query.
  - `types` — result items, their labels, and display sanitizing.
  - `input` — key presses and the action each one stands for.
  - `app` — the interactive state machine: query editing, selection, scrolling
    and the toggles.
  - `args`, `config`, `editor` — command line, configuration paths, editor
    command lines.
  - `engine` — the walk's file-type and glob filters, built with the `ignore` crate
    behind trusted wrappers.
  - `engine::content` — content search: matchers (extended or regex), the
    per-file line scan, and the engine state fed by a running search.
  - `engine::files` — the fuzzy file finder: nucleo's matcher behind trusted
    wrappers, and the page of ranked paths taken from its snapshot.
  - `preview` — the window of lines shown for a result, its syntax highlighting
    (syntect behind trusted wrappers) and the cache of rendered previews.
  - `screen`, `session` — the text on screen and the run loop's per-frame decisions
    (where a query goes, debouncing, opening the editor, quitting).
- `app/` — the `rsc` program: terminal, event loop, directory walking, worker
  threads feeding the matchers, file reading, theme loading, TOML config reading.
- `tests/` — tests of the library on concrete values.
