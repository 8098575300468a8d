# jsmeld

Compiling and bundling JavaScript/TypeScript with SWC, with the decisions of
the library proved in Verus.

## Layout

- `src/` — the verified library.
  - `util.rs`: ECMAScript target names (`parse_es_version`).
  - `config.rs`: `JSMeldOptions`, the style-hook table `StyleHooks`
    (extension → ordered hooks, no extension twice), extension normalization
    and setting options by name.
  - `compiler.rs`: `Compiler`, which checks the target and hands a
    `CompileRequest` to SWC.
  - `style.rs`: recognising style files, running style hooks in order, and
    turning a style sheet into a JavaScript module (its text a JSON literal
    written by `serde_json`).
  - `bundler.rs`: `Loader` (style files become style modules, scripts are
    compiled), `Bundler`, and `BundleRun`, the steps of one bundling run as a
    state machine; `bundle` drives a run, handing each step to a host function.
  - `cli.rs`: the decisions of the command-line tool.
  - `errors.rs`, `text.rs`: the error type and string helpers.
- `tests/` — tests of the library, run against the real SWC and `serde_json`.
- `app/` — the command-line tool, the Python bindings (the module `jsmeld`,
  in `app/pybindings.rs`, compiled with the tool's crate), and `SwcHost`,
  which performs the steps of a bundling run with SWC's module bundler and
  the file system.

## Hooks

The library runs hooks of any type `H: Fn(&str, &str) -> Result<String, String>`
(path, source → transformed source or error). The application uses boxed
closures and adapts `Arc<dyn Fn(&Path, &str) -> ...>` hooks to that form.
