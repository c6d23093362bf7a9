# icarus

The verified core of the CoRe/forge language toolchain, written in Verus.

`src/` is the library; every function in it is verified against its
contract:

- front end: `lexer` (longest-match tokens with byte spans, exact decimal to
  double conversion in `number`), `parser` (recursive descent to the syntax
  tree of `ast`), the `ff` command preprocessor;
- middle: `ir`, `ir_build` (syntax tree to three-address IR), `analyzer`
  (dead code, string arithmetic, open files), `const_fold` (the constant
  table and folding decisions), `optimizer` (dead-code removal);
- back ends: `arm64_text`, `arm64_instr`, `arm64_runtime`, `arm64_program`
  (ARM64 assembly text), the JIT compiler `jit_compile` (IR to machine
  code) and its building blocks (`encoder`, `regalloc`, `emit`, `branching`,
  `calls`, `symbol_table`, `memory_table`, `hotpath`, `stackmap`, `heap`,
  `trampoline`, `ffi`, `tagged`, `counters`);
- driver policies: `exec_mode`, `diagnostics`, `training_data`, `imports`
  (cycle, skip or load), and the decisions of the interpreter's task
  `scheduler`.

`app/` is the `forge` command line around it: flags, files, the terminal,
processes (assembler, linker, the ARM64 VM, install), the syntax mapping
file, import path resolution, executable memory and the runtime helpers the
JIT's code calls, and the arithmetic of constant folding and the
interpreter (both compute with doubles). `tests/` exercises the library.
