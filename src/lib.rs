//! An assembler and an emulator for the nano chip, a small 8-bit accumulator
//! machine with 16-bit instruction words.
//!
//! The assembler (`parse`) reads a program text line by line, resolves its
//! constants and labels, and encodes each instruction as a word; the
//! emulator (`NanoChipEmulator`) executes those words one tick at a time.
pub mod emulator;
pub mod error;
pub mod image;
pub mod instruction_generator;
pub mod isa;
pub mod laws;
pub mod parser;
pub mod syntax_tree;
pub mod text;

pub use emulator::NanoChipEmulator;
pub use error::{AsmError, ErrorKind};
pub use image::{image_bytes, load_rom};
pub use instruction_generator::generate_instruction;
pub use isa::{Form, Opcode};
pub use parser::parse;
pub use syntax_tree::{Instruction, Parameter, SyntaxTree, Value, ValueType};
