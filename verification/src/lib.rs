//! Assembles a dispatcher program out of independently built message-handler
//! crates, each bound to its own namespace.
//!
//! The library holds the rules of that assembly: how the requested
//! dependencies are paired with their package descriptors, the canonical
//! order that aliases and change detection rest on, the text of the two
//! artifacts, and the decisions of one invocation. Reading and writing files
//! and running the build command are left to the caller.

pub mod alias;
pub mod arguments;
pub mod artifacts;
pub mod canonical;
pub mod dependency;
pub mod entry_point;
pub mod escape;
pub mod failure;
pub mod invocation;
pub mod literal;
pub mod manifest;
pub mod order;
pub mod pipeline;
pub mod resolve;
pub mod snapshot;
