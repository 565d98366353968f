//! A minimal virtual CPU: 4096 bytes of memory shared by program and data,
//! sixteen 32-bit registers of which register 0 is the instruction pointer,
//! and a fetch-decode-execute loop over eight fixed instructions.
//!
//! The module `semantics` gives the mathematical model of the machine: a
//! ghost state, one spec function per instruction, and the step and run
//! functions over that state. The module `machine` holds the executable
//! machine, each of whose methods is proved to follow the model. The module
//! `decimal` renders register values in decimal for the `out_number`
//! instruction, and the module `laws` states and proves the general
//! properties of the instruction set.

pub mod decimal;
pub mod laws;
pub mod machine;
pub mod semantics;

pub use machine::Machine;
pub use machine::MachineError;
