//! A small embeddable bytecode virtual machine: a fixed bank of typed
//! registers, a scratch memory region, and a 256-slot opcode dispatch table
//! whose handlers are supplied by the host.
pub mod engine;
pub mod lemmas;
pub mod register;

pub use engine::{ErrorPolicy, NoOp, OpHandler, Svm, SvmView, OPCODE_COUNT, REGISTER_COUNT};
pub use register::{Register, RegisterModel};
