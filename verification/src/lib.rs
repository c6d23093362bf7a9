//! Icarus: the verified core of a small language toolchain.
//!
//! This crate holds the parts of the toolchain whose behaviour can be stated
//! and checked: the lexer and the recursive-descent parser of the surface
//! language, the syntax tree and the lowering of it to the three-address
//! IR, the ARM64 assembly-text backend (stack frames, per-instruction
//! templates, runtime and data sections, whole programs), the ARM64
//! instruction encoders, the JIT's register map and spilling emitter, branch
//! patching, the bookkeeping tables of the JIT (symbols, allocations, hot
//! paths, stack maps), the `syntax.ff` command preprocessor, and a few small
//! policies of the command-line driver.

pub mod encoder;
pub mod text;
pub mod chars;
pub mod name_map;
pub mod branching;
pub mod emit;
pub mod regalloc;
pub mod tagged;
pub mod symbol_table;
pub mod calls;
pub mod counters;
pub mod hotpath;
pub mod memory_table;
pub mod stackmap;
pub mod optimize;
pub mod heap;
pub mod ffi;
pub mod trampoline;
pub mod diagnostics;
pub mod exec_mode;
pub mod ff;
pub mod training_data;
pub mod arm64_text;
pub mod arm64_instr;
pub mod arm64_runtime;
pub mod arm64_program;
pub mod ast;
pub mod ir;
pub mod ir_build;
pub mod number;
pub mod analyzer;
pub mod optimizer;
pub mod const_fold;
pub mod scheduler;
pub mod jit_compile;
pub mod imports;
pub mod lexer;
pub mod parser;
