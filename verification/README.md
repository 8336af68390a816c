# GitLumina

A terminal Git client (commit graph, staging, branches, push/pull/fetch),
whose core is verified with Verus.

## Layout

- `src/` — the verified library.
  - `git_ops.rs` — repository operations over `git2`, the commit-graph lane
    layout and its laws, status classification, branch ordering, the local
    half of fetch/push/pull (upstream lookup, fast-forward decision).
  - `git.rs` — the trusted wrappers around the `git2` calls.
  - `app.rs` — the application state and every operation on it, each with a
    contract over the whole state.
  - `input.rs` — what each key and mouse event does (the decisions of the
    event loop).
  - `ui.rs` — what the display computes: click regions, graph cells, diff
    line numbers, scroll positions, texts, colours, relative times.
  - `text.rs` — string helpers specified over character sequences.
- `app/` — the terminal front end: the event loop, drawing with `ratatui`,
  terminal handling with `crossterm`, and the network transfers of
  fetch/push/pull with credential discovery.
- `tests/` — tests of the library, some against throwaway repositories
  created under `/tmp`.
