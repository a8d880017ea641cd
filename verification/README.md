# respondami

The core of a terminal AI coding agent, written in Verus. The functions in
`src/` carry contracts that Verus proves, except a few trusted items that
stand for outside code: the wrappers marked `#[verifier::external_body]`
(calls into `serde_json`, `chrono`, `dirs`, `unicode-width`,
`pulldown-cmark` and `String::from_utf8_lossy`, and the conversion of the
Markdown parser's events) and one `assume_specification` (`String::push`).
Their contracts are believed, not proved; each says in its doc comment
what it claims of the outside function.

## Layout

- `src/` — the verified library
  - `text`, `wrap`, `columns`, `blocks` — character helpers, word wrapping,
    table column widths and the heights of Markdown blocks
  - `markdown`, `md_parse`, `table_layout`, `md_layout` — parser events to
    content blocks, Unicode bullet normalisation, Markdown text to blocks,
    the drawn lines of a table, and where list, task, code and rule lines go
  - `widgets` — layout of the overlays: prompt editor, autocomplete popup,
    command palette, panel, filled header bar
  - `session`, `history_guard` — conversation messages, their wire form and
    digests, and the check that a request only ever extends the previous one
  - `hooks` — hook events, registry, directory loading rules, environment
    and output handling of hook scripts
  - `config`, `logging`, `agents_md` — configuration rules and defaults, file
    locations, project instructions
  - `app`, `keys`, `palette`, `display` — application state, key handling
    layers and state handlers, palette commands, display toggles
  - `agent`, `agent_loop`, `tool_calls`, `agent_events`, `streaming` —
    responses, token estimates, retries, hook verdicts, the steps of the
    agent loop and of its tool calls, the effect of agent events on the
    application, the end of a turn, and stream assembly
- `app/` — the terminal program: configuration and hook files, running
  hook scripts, drawing, and the event loop
- `tests/` — tests of the library, run against the real outside crates
