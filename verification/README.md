# ollmo

The verified core of an OpenAI-compatible gateway for language models, and the
program around it.

A configuration names providers, models that are routed to them, and variants of
models. For a chat request the library decides which provider it goes to, which
key, headers and values it is sent with, how a system prompt is put into it, and
how it is answered when it cannot be routed. It also decides which files make up
the configuration, what is wrong with it, and when it is read anew.

- `src/` is the library. It computes on plain values, and every function states in
  its contract what it returns. `src/laws.rs` states what holds across functions.
- `app/` is the program: command line, files, watching, templates on disk, HTTP.
- `tests/` runs the library on examples.

Calls into other crates stand behind small functions whose contracts are believed:
JSON pointers (`jsonptr`, in `src/pointer.rs`), JSON values (`serde_json`, in
`src/json.rs`), the text of dates (`toml`, in `src/toml_value.rs`), the variables of
a template (`minijinja`, in `src/template.rs`) and the home directory
(`shellexpand`, in `src/paths.rs`).
