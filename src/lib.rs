//! A small account program: an instruction decoder, a fixed-capacity record
//! codec over an account's storage slot, and the dispatcher that ties them.

pub mod errors;
pub mod instruction;
pub mod processor;
pub mod state;
pub mod wire;
