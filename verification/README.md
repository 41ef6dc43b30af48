# colab

Deterministic, syntax-aware codemods driven by a small DSL
(`refactor "name" { match go::import "a" { replace "b" } }`), with the
rewriting rules, the DSL front end and the report formats verified with
Verus.

## Layout

- `src/` — the verified library.
  - `text`, `syntax`, `edits`: UTF-8 text, the tree-sitter parse seen as
    plain node records, and edits applied to a source.
  - `lang_*`: one backend per language (C, C++, C#, Go, Java,
    JavaScript, JSON); each rule's result is stated over the parsed tree.
  - `rules`, `backend`, `backends`, `scoped`: the closed set of rules, the
    backend registry and `in "<glob>"` scoping.
  - `dsl`: lexer, parser, compiler and the compiled `Refactoring`.
  - `render`, `report`, `format`: counters, diffs and the human, JSON,
    NDJSON and diff outputs.
  - `walker`, `paths`, `lsp`: file filters, extension checks, and the
    language server's diagnostics and completions.
  - `laws`: properties of the rules as a whole.
- `app/` — the command-line program: argument handling, the filesystem
  walk, git, logging, the discovery documents and the LSP protocol.
- `tests/` — tests against the compiled library with the real
  tree-sitter grammars linked.
