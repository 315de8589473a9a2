# rmux

A terminal multiplexer window with an AI chat in each terminal tab: workspaces
in a side bar, docked terminal and browser tabs, notifications when a reply
arrives, and a chat client that streams completions from an OpenAI-style
endpoint and lets the model use sandboxed file tools and MCP servers.

## Layout

- `src/` — the library, verified with Verus:
  - `text.rs`, `order.rs`: character-sequence specifications (trim, search,
    replace, count, split, decimal) and a stable sort, with their executable
    forms.
  - `workspace.rs`, `layout.rs`: workspaces, their order and the one shown;
    tab titles, the shortened working directory, the tool list summary.
  - `notification.rs`: the notification store, with its laws (a new
    notification is unread, marking read, counting; every method keeps each
    notification listed once under its own workspace and tab, given fresh
    ids).
  - `tools.rs`: the built-in tools, reading a call's arguments, the path
    check (what the file system is asked, and the decision on its answers),
    the reports each tool gives, and reading a file's bytes as text (what a
    write stores reads back as the written content).
  - `chat.rs`: messages, the server-sent-event framing, applying streamed
    deltas, the conversation and the system prompt.
  - `exchange.rs`: one exchange with the model as steps: ask, record the
    reply, run its tool calls one by one, record each result, ask again, or
    finish.
  - `history.rs`: the saved history format; reading it back gives the user
    and assistant messages, trimmed, with blank ones left out.
  - `config.rs`: configuration files, presets, their names and their merge.
  - `mcp.rs`: MCP tool naming, routing, the connection registry, which
    server to connect next, and preparing a call with its JSON arguments.
  - `agent.rs`, `terminal.rs`: the agent instruction files and the terminal
    pane's state.
- `app/` — the program around it: the egui window, HTTP streaming, file and
  process I/O, MCP sessions, and the serde forms of the library's types.
- `tests/` — tests of the library on concrete values.
