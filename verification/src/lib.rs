//! Host side of a sandboxed contract machine: the functions that guest
//! bytecode imports, the state they act on, and the protocol by which one
//! contract calls another.

pub mod bytes;
pub mod catalog;
pub mod codec;
pub mod context;
pub mod data_entry;
pub mod env;
pub mod error;
pub mod memory;
pub mod number;
pub mod payments;
pub mod probe;
pub mod stack;
