# haxby

A verified core for the haxby virtual machine of the Aria language. The
library is written in Verus: every function in `src/` carries a contract
that Verus proves, and the laws that tie functions together stand as
public proof functions beside them.

## Layout

- `src/` — the library.
  - Bytecode: `opcodes` (instructions and their encoding), `bc_reader`
    (decoding, with the decode-encode laws), `compiled` (compiled modules,
    constants and line tables), `dump` and `sidecar` (listings).
  - Runtime data: `symbol` (interning), `shape` (object shapes and their
    transitions), `object` (attribute slots), `list`, `enumeration`,
    `mixins` (inclusion graphs and lookup through them), `attributes`
    (reading, writing and listing attributes), `runtime_module` (loading
    modules and their named values), `globals` (the builtin table),
    `builtin_enums` and `runtime_error` (the `Maybe`, `Result`, `Unit` and
    `RuntimeError` enums), `errors` and `exception`, `operators`.
  - Builtins and native libraries: `builtins`, `strings`, `char_classes`,
    `regex_ops`, `files`, `paths`, `network`, `text`.
  - The test runner's decisions and reports: `test_runner`.
- `tests/` — tests of the library on concrete values.
- `app/` — the parts that do input and output: the test runner's command
  line, files, the network and the clock. It calls the library for every
  decision.

Calls into outside code (the `regex` and `unicode_categories` crates, and
a few functions of `std`) stand behind small trusted wrappers whose doc
comments say what their contracts claim.
