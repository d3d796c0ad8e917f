//! A read-optimised blob store's building blocks: errors, fixed-capacity
//! collections, generational allocators and pools, a double-buffered logger,
//! the executor protocol and the connection state machines.

pub mod collections;
pub mod error;
pub mod mem;
pub mod protocol;
pub mod blob_error;
pub mod state_machine;
pub mod logger;
pub mod executor;
