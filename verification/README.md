# always_goofy_things

A lightweight LLM loop for software development tasks, written and verified in
Verus. The model is asked, its tool calls are run, their results go back to it,
until it answers.

- `src/` is the library: requests and streams of the LLM providers, the
  reasoning loop, slash commands, sessions, attachments, PDF review documents,
  the knowledge base, safety rules for tool calls, and everything that is shown.
  Its functions state what they return in `requires` and `ensures`, over the
  spec functions beside them; the public proof functions state what holds across
  functions.
- `tests/` runs the library on concrete values.
- `app/` is the program: arguments, files, network, database and terminal.

Outside crates are called through small wrappers whose contracts say what is
believed of them: `serde_json` (`json_text`), `regex` (`pretty`, `pdf_body`,
`file_pdf`), `base64` (`file`), `chrono` and `uuid` (`model`, `cmd`), `sha2` and
`unicode-normalization` (`kb`), `pdf_oxide` (`pdf_facts`).
