# tuillama

A terminal chat client for Ollama and its background server, with the
decisions of both written in Verus and proved against their contracts.

* `src/` is the verified library:
  * Markdown: math protection (`math`), the parser's events (`md_events`),
    the block structure (`md_doc`), layout helpers and tables (`md_layout`),
    highlighting (`syn`) and rendering to styled lines (`md_render`), with
    the styles and theme in `style` and `theme`.
  * Client state: chats and messages (`chat`), the state and its streams
    (`client`, `streams`, `session`), keys and modes (`keys`), the palette
    and `:set` (`commands`, `settings`), what the screen shows
    (`chat_view`, `chat_layout`, `screens`, `ui`), stored chats
    (`storage`), attachments (`attach`) and the preview (`preview`).
  * Server: the wire protocol (`protocol`), JSON values and tool payloads
    (`json`, `tools`), the NDJSON stream of the model (`ndjson`), the
    session and tool routing (`server`), the agent loop (`agent`) and the
    client-side file tools (`file_tools`).
* `app/` is the program around it: configuration, the terminal, the
  socket, HTTP, files, the clipboard and the clock. `tuillama server` (or a
  binary named `tuillama-server`) runs the server.
* `tests/` runs the library on concrete values.
