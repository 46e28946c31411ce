# jinja_lsp

A language server for Jinja templates and the Rust or Python code that
renders them: completion of names, filters, tests, snippets and template
paths; hover for filters; goto definition; code actions; and diagnostics for
undefined names and missing templates.

## Layout

- `src/` is the library, written in Verus. Its logic is made of verified
  functions whose contracts Verus proves. Tree-sitter, ropey, dashmap and a
  few std calls are reached through small trusted wrappers (marked
  `#[verifier::external_body]`): Verus believes their contracts, which say
  no more than the outside code shows, and proves the rest from them.
  - `search/` walks the captures of the tree-sitter queries: the scopes and
    definitions of a template, its objects, imports and snippets, and the
    definitions of backend code.
  - `lsp/` holds the server's decisions: configuration, completions,
    diagnostics, code actions, goto targets and the message loop's choices.
  - `to_input_edit.rs` turns protocol edits into rope edits and the edits
    tree-sitter takes; `parsers.rs` applies a change to a document's rope
    and tree and parses it again.
  - `classic/` keeps the capturers and queries of the older server.
  - `nodejs.rs` and `js_files.rs` hold what the JavaScript bindings return.
- `tests/` runs the library on concrete values.
- `app/` is the server binary: standard input and output, the file system,
  the configuration files and the protocol types.

## Running the server

The binary reads its tree-sitter queries from `data/queries/*.scm` (or from
the directory named by `JINJA_LSP_DATA`), and the descriptions of filters and
tests from `data/filters/<name>.md` and `data/tests/<name>.md`.
