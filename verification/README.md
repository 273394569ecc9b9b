# repo-lint

A filesystem layout linter. A TypeScript configuration (`repo-lint.config.ts`)
describes the expected directory tree (directories, files, named parameters,
repeated and recursive segments, alternatives), forbidden paths and names,
ignored paths, and files that must exist together. `repo-lint check` walks a
repository and reports every path that breaks the configuration, on the
console, as JSON or as SARIF.

## Layout

- `src/` — the library, verified with Verus. Every public function states in
  its contract what it returns, over mathematical models of its inputs.
  - `config/` — the configuration model (`ir`), the module model a
    configuration is read from (`expr`), reading TypeScript into that model
    with swc (`syntax`), evaluation of layouts and of whole configurations
    (`layout_eval`, `parser`), finding configuration files (`discovery`),
    resolving imports (`resolve`, `packages`).
  - `engine/` — matching paths against the layout (`layout_trie`), path and
    name rules (`rules`), the per-path check (`matcher`), checks over all
    walked paths (`post_validator`), and the walk's settings (`walker`).
  - `output/` — the order violations are listed in, and the console, JSON and
    SARIF reports.
  - `cli/` — what the `check`, `inspect` and `scaffold` commands compute.
  - `cache/` — the per-file result cache and its text format.
  - `text.rs`, `numbers.rs`, `paths.rs` — strings, decimal numbers and
    Unix paths, with their laws.
- `app/` — the program around the library: the command line, reading files
  and the modules they import, walking the disk, serialising reports,
  printing.
- `tests/` — tests of the library through its public interface.
