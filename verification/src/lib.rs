//! Recovery of a human-inspectable intermediate representation from the
//! bytecode of a stack-based scripting virtual machine. A scenario buffer
//! is walked twice: a discovery pass locates every routine and its declared
//! argument and local counts, and an interpretation pass symbolically
//! executes each opcode against a per-routine stack analyzer, turning
//! stack traffic into named values and statements.

pub mod cfg;
pub mod disasm;
pub mod error;
pub mod ir;
pub mod names;
pub mod scenario;
pub mod semantics;
pub mod stack;

pub use cfg::BasicBlock;
pub use cfg::CFGBuilder;
pub use disasm::Disassembler;
pub use disasm::Function;
pub use error::DisasmError;
pub use ir::NamedVariant;
pub use ir::Statement;
pub use ir::Variant;
pub use scenario::Scenario;
pub use scenario::Syscall;
pub use stack::StackAnalyzer;
