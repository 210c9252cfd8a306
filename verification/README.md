# simple_vm

A stack-based virtual machine over `i32` and `bool` values, its assembly
language (SASM) and its binary program format, written in Verus.

- `src/` is the verified library.
  - `vm/`: the machine. `semantics.rs` states one step of execution as a spec
    function over `VmState`; `VM::single_step` and `VM::run` are proved to
    follow it. `laws.rs` holds properties of single steps (sticky error flags,
    checked against unchecked arithmetic, stack identities), `trace_laws.rs`
    properties of runs (running is stepping repeatedly; each error flag over a
    sequence of steps).
  - `code.rs`, `le.rs`: instructions, their byte encoding and decoding, with
    round-trip proofs.
  - `assembler/tokenizer/`: `lexical.rs` states the lexical grammar over the
    source text's chars; `Tokenizer` is proved to produce exactly those tokens,
    with byte-based line and column numbers in its errors.
  - `assembler/parser/`: `syntax.rs` states the grammar and label resolution;
    `Parser::parse` is proved to follow it.
  - `assembler/mod.rs`: `Assembler` (tokenize, then parse) and the program
    binary (`Assembled::to_bin` / `from_bin`), with a round-trip proof.
- `tests/`: tests of the library.
- `app/`: the command line front end (file I/O, error messages, printing the
  `dbg_stack` snapshots that the VM records).
