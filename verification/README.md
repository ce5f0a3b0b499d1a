# zoxi

Zoxi is a small language layer on top of Rust: `.zo` files are transpiled into Rust under
`.zoxi/src` and compiled with `rustc`, registry dependencies included.

This crate is the verified core of the tool. Every function under `src/` is checked by
Verus against its `requires`/`ensures` contract; `app/` is the command-line program around
it (argument parsing, the file system, network downloads, running `rustc`).

## Layout

- `src/transpiler/compiler/`: the lexer, the parser into an AST, the checks on the AST and
  the Rust generator; `pipeline::compile_source` chains them.
- `src/transpiler/source/`: the text pipeline, which rewrites a source file stage by stage
  (return arrows, `string`, literals, iterator helpers, map assignments, `String` bindings,
  `Ok(..)` tails); `pipeline::transpile_source` chains the stages.
- `src/transpiler/engine.rs`, `error.rs`: per-file decisions of a project transpilation and
  error reports.
- `src/project/`: paths, `zoxi.toml` editing and reading, the transpile and build caches
  and their file formats, hashing.
- `src/build/`: target definitions and `rustc` command lines, dependency resolution
  decisions, registry packages and their fingerprints, version selection.
- `src/cargo/`, `src/cli/`: cargo command lines and the command-line model.
- `src/text.rs`: character helpers shared by all of the above.

Calls into `ariadne` (error reports), `semver` (versions and requirements) and `regex`
(`String` bindings) are made from `src/` through small trusted wrappers; those of `semver` and
`regex` name their results, and nothing is claimed of the report text, whose colouring
depends on the machine.
