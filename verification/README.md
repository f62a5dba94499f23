# Mini-Alive

A minimal translation validator for a subset of LLVM IR (`i16`, `ptr`, `i1`,
structs and arrays; arithmetic, `extractvalue`/`insertvalue`, `alloca`,
`load`/`store`, `icmp`, `phi`, `call`, `br`, `ret`), which emits SMT queries
through an SMT IR that lowers to SMT-LIB text or to Z3.

The library under `src/` is written in Verus; each public function carries a
contract that Verus proves.

- `syntax/`: the text format. `grammar.rs` states the grammar as spec
  functions over the chars of the source; `lex.rs`, `parse.rs` and
  `builder.rs` (name resolution and numbering) are proved to follow it.
  `value.rs`, `inst.rs` and `func.rs` print the IR, `render.rs` renders
  diagnostics, `round_trip.rs` proves that printed types and literals
  parse back to themselves, and `structure.rs` proves the shape of parsed
  functions (blocks end in exactly one terminator; only value instructions
  have a result and a non-void type).
- `smt/ir.rs`: the SMT IR, a context of terms with their sorts.
- `smt/smtlib/`: S-expressions (`sexp.rs`), their pretty-printer
  (`pretty.rs`) and the lowering of the SMT IR to SMT-LIB (`lower.rs`).
- `arena.rs`: a typed arena with IDs.
- `text.rs`: decimal numerals and string building.

`app/` holds the command-line program (read a file, parse it, print it) and
the lowering to Z3 through `z3-sys`, whose calls are foreign functions.
