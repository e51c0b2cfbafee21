//! A CHIP-8 interpreter core: machine state, instruction semantics and the
//! keypad mapping, with every instruction proved against its specification.

pub mod keypad;
pub mod laws;
pub mod machine;
mod random;
pub mod state;
