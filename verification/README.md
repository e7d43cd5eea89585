# Codeck

A keyboard-first terminal dashboard for background Codex sessions, written as a
Verus library with a thin program around it.

The dashboard talks to the Codex app-server over a private Unix socket. It lists
the sessions that it follows, shows the conversation of the selected one as
terminal Markdown, and has one composer for new tasks, replies and names.

## Layout

- `src/` is the library. Every rule of the dashboard stands there with a contract
  that Verus proves.
  - Text and data: `text`, `segmentation`, `assoc`, `order`, `slots`, `json`,
    `paths`, `views`.
  - Protocol: `rpc`, `protocol`, `params`, `model`, `transcript`, `connection`.
  - Composer: `composer`, `composer_laws`, `composer_view`, `clipboard`, `keys`.
  - Conversation preview: `events`, `markdown`, `tables`, `links`, `labels`,
    `wrap`, `styled`, `style`, `cells`, `selection`, `terminal_palette`.
  - Dashboard: `state` holds the `App` type and its view. `deck` and `desk` say
    what each event does to the view, without and with messages to the app-server.
    `app`, `drafts`, `input`, `notifications`, `requests`, `responses`, `skills`,
    `submission`, `surface` and `lifecycle` do it.
  - Screen: `rows`, `menus`, `layout`, `screen`, `render`.
  - `laws` states what holds across the operations of the dashboard.
- `tests/` runs the library on concrete values.
- `app/` is the program: arguments, terminal, files, the socket, the clipboard.

## What is believed without proof

Calls into `unicode-segmentation`, `unicode-width`, `serde_json`,
`pulldown-cmark` and `ratatui`'s layout go through small functions whose
contracts Verus believes. They stand in `segmentation`, `json`, `events` and
`screen`. `text`, `transcript` and `segmentation` hold the same for three
functions of the standard library.
