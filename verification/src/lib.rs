//! Brainfuck interpreter and transpiler.
//!
//! Utilities to parse and interpret or transpile Brainfuck code. Every
//! function is verified against a model of the language: the token stream of
//! a byte sequence, the transition function of the state machine, and the
//! text of the generated program.
//!
//! - [`tokenizer`] turns source bytes into tokens with their positions.
//! - [`code_memory`] and [`data_memory`] hold the program with its cursor
//!   and the tape with its cursor.
//! - [`machine`] is the state machine: it says what each instruction needs
//!   from outside and executes it once that has been done.
//! - [`bf_interpreter`] drives a machine through an [`IOSystem`].
//! - [`bf_transpiler`] lowers a program to C.
//! - [`nesting`] and [`jumps`] hold the laws of the loop structure: which
//!   tokens pair, and that machine and generated program pair the same.

pub mod bf_interpreter;
pub mod bf_transpiler;
pub mod code_memory;
pub mod data_memory;
pub mod io_system;
pub mod jumps;
pub mod machine;
pub mod nesting;
pub mod tokenizer;

pub use bf_interpreter::BrainfuckInterpreter;
pub use bf_transpiler::BrainfuckTranspiler;
pub use code_memory::CodeMemory;
pub use code_memory::CodeView;
pub use data_memory::DataMemory;
pub use data_memory::OutOfBounds;
pub use data_memory::TapeView;
pub use io_system::byte_to_cell;
pub use io_system::cell_to_byte;
pub use io_system::IOResult;
pub use io_system::IOSystem;
pub use machine::Action;
pub use machine::Event;
pub use machine::Machine;
pub use machine::MachineState;
pub use machine::Progress;
pub use machine::RunError;
