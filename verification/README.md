# mork_metta

An evaluator for MeTTa programs, written in Verus. The library under `src/`
holds the whole of the language: values, parsing, definitions, spaces, pattern
matching, built-in functions, the bytecode compiler, the bytecode machine and
the continuation machine. Every function of it carries a contract that Verus
proves, but for the wrappers round calls into other crates and into the standard
library. Their contracts are trusted: each is marked `external_body`, says in its
comment which outside function it calls and what is claimed of it, and holds
nothing but that call. They stand in `src/numeric.rs` (numbers), in
`src/builtins/arithmetic.rs` (random numbers), in `src/eval/shared/fresh.rs` (the
map of renamed variables), in `src/eval/io.rs` (UTF-8) and in `src/text.rs`.

Evaluation is a sequence of steps. Where a step needs something that only a host
can do (floating point, files, standard input, plugins, Python), the library
says what it needs and goes on with the values that it gets. The host lives
under `app/`.

- `src/atom.rs`, `src/numeric.rs`, `src/expr.rs`, `src/env.rs`: values,
  numbers, expressions and environments
- `src/parser.rs`, `src/compile.rs`: text to expressions, expressions to
  definitions; `src/round_trip.rs`: written values are read back
- `src/func.rs`, `src/space.rs`: the table of functions, spaces and state
- `src/builtins.rs` and below: the built-in functions; `src/builtins/compact.rs`
  holds a compact set of them, in one table
- `src/eval/shared`, `src/eval/forms`: matching, substitution, renaming
- `src/eval/machine/vm`: the compiler and the bytecode machine
- `src/eval/machine`: the continuation machine and the evaluator that runs both
- `src/eval/walker`: a second evaluator, which walks over expressions
- `src/eval/runtime.rs`: the entry points
- `src/eval/io.rs`, `src/eval/lines.rs`, `src/eval/python.rs`: program files, as
  a whole and line by line, and calls into Python
- `tests/`: programs and functions on concrete values
