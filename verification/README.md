# nano

A terminal agent that streams model responses, with its logic verified by Verus.

- `src/` is the verified library.
  - `session` keeps the conversation of a session: runs, messages, tool calls and their results, and
    which of them a model gets to see.
  - `provider` holds the provider-neutral values, a deterministic provider, and under `openrouter`
    the requests to OpenRouter and what is made of its replies: credentials, request bodies, the
    model catalog, prices, generation streams and error messages.
  - `runtime` turns provider items into the events that the interface receives.
  - `tui` is the interface without a terminal: the editor, the conversation, the model picker, and
    the layout of every frame as plain values.
  - `text` holds the text functions that the others share.
- `app/` is the program around it: HTTP, files, the environment, the terminal and the tasks.
- `tests/` runs the library on concrete values.

Contracts speak of views: a `String` is a sequence of characters, a struct is the struct of its
fields' views. Each state machine has a step function (`stream_step`, `turn_step`, `app_key_step`,
and so on) that its executable method is proved to follow, and laws, as public proof functions, over
those steps.

What the library takes from outside crates on trust is stated at each wrapper: URLs and header
values (`reqwest`), JSON text (`serde_json`), text width, grapheme clusters and borders (`ratatui`),
line wrapping (`textwrap`), and lower case (the standard library).
