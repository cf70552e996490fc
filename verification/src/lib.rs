//! A CHIP-8 virtual machine whose fetch/decode/execute semantics are
//! stated as specifications and proved against the implementation.

pub mod state;
pub mod instr;
pub mod semantics;
pub mod machine;
pub mod laws;
