# terraffi

Generates a readable C header from the items of a Rust crate, and provides the
C interop types (owned arrays, resizable vectors and their borrowed views,
pointer-sized handles) that such headers describe.

## Layout

- `src/` is the verified library. Every function there carries a contract;
  Verus proves those of the library's own functions. The functions marked
  `#[verifier::external_body]` are the exception: each only calls into std,
  `syn`, `proc-macro2`, `quote` or `convert_case` (or converts what such a
  call returns), and its contract is trusted, not proved. The names declared
  with `uninterp spec fn` stand for what those calls return.
  - `syntax`: the model of parsed Rust items (attributes, types, fields,
    variants, functions, constants) that the generator reads.
  - `parse`: a source file's text parsed by `syn` into that model.
  - `convert`, `bitflags`, `doc`, `literal`, `macros`: turning Rust items,
    doc comments and literals into C items.
  - `ctype`, `items`, `emit`, `header`: C types and items, and the text that
    is written for them.
  - `selection`, `topo`, `scan`, `names`, `validate`, `order`: which items are
    emitted, in which order, under which names, and which are refused.
  - `builder`, `config`, `generator`, `deps`, `error`: configuration, the whole
    generation pass, dependency discovery and errors.
  - `ctypes`, `buffers`: the interop types.
  - `text`, `case`: strings and naming conventions.
- `tests/` runs the library on concrete inputs.
- `app/` holds what reads the disk: locating a crate's sources and its local
  dependencies, reading the files and following `mod` declarations, and the
  error types with `Display` and `std::error::Error`.
