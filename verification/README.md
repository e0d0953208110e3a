# Ollama Studio

A desktop chat client for local language models served by
[Ollama](https://ollama.com), written in Rust with `egui`, whose logic is
verified with Verus.

## Layout

- `src/` — the verified library. Every function has a contract, and Verus
  proves all of them but three: the small wrappers around
  `str::to_lowercase`, `Path::extension` and Base64 encoding, whose
  contracts are trusted.
  - `text`: trimming, blank text, decimal numbers.
  - `chat`, `conversation`: messages, tabs, and what each conversation
    operation (streamed pieces, edits, regeneration, token counts) does.
  - `request`: the server endpoints, the unload request, and the chat
    request built from a conversation, its instructions and an attached
    file (images go in Base64 on the last user message, text files are
    quoted before it).
  - `stream`: what each line of a streamed reply leads to.
  - `session`: the state of the application and each user action or server
    event as a step from state to next state and effects to carry out.
  - `classic`: the same steps in the first design of the window.
  - `models`, `tabs`, `settings`, `theme`, `display`: offered models, tab
    lists, preferences, palettes and what the conversation view shows.
  - `session_laws`: properties that span several operations (restart,
    streaming, events taken in order).
  - `tab_laws`: the tab list stays sound — never empty, distinct ids, an
    active tab that exists — over each step.
  - `step_laws`: the same over any sequence of steps of either design,
    with the next id and the token counters never going down.
- `app/` — the window, the worker threads, the HTTP calls and the files on
  disk. It shows the session, hands it what happened, and carries out the
  effects it returns.
- `tests/` — tests of the library on concrete values.
