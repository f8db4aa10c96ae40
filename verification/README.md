nowasm
======

A runtime for WebAssembly 1.0 (with the sign-extension operators) without
unsafe code or dependencies, whose decoding and execution rules are stated as
contracts and proved with Verus.

Layout
------

- `src/reader.rs`, `src/decode.rs`: the byte reader (strict LEB128) and the
  `Decode` trait, with what every decoder consumes and returns.
- `src/components.rs`, `src/instructions.rs`, `src/module.rs`: the binary
  format's components, instructions and module sections, each decoder proved
  against a description of the format.
- `src/numeric.rs`, `src/memory.rs`, `src/semantics.rs`: integer arithmetic,
  little-endian memory access, and the effect of each instruction that
  neither branches, calls nor computes with floating point.
- `src/control.rs`: what running code does: blocks, loops, conditionals,
  branches, calls of the module's own functions and of host functions, with
  fuel. What a host function or the embedder's floating-point arithmetic
  answers is read from the log of outside calls that the executor keeps,
  which also records what each call was handed.
- `src/execute.rs`, `src/instance.rs`: the interpreter and module instances,
  proved to follow `control.rs`; floating-point arithmetic and host functions
  are supplied by the embedder through the `FloatOps` and `HostFunc` traits.
- `src/symbols.rs`, `src/module_spec.rs`, `src/sections.rs`, `src/vector.rs`,
  `src/writer.rs`, `src/validation.rs`: the older
  decoding interface (module inspection, section counts) and its helpers.
- `app/`: the embedder's side: floating-point arithmetic on the host, and
  error types that implement `Display` and `std::error::Error`.
- `tests/`: tests of decoding, execution and instantiation.

Fuel
----

Every call, block entry and loop pass costs one unit of fuel; instances run
with `u64::MAX` units, and running out is reported as `ExecuteError::Exhausted`.
