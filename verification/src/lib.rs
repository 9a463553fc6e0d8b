//! A bridge between a virtual UI tree and a retained widget tree.
//!
//! The virtual side hands over templates and batches of mutation
//! instructions; this crate interprets them against a table of node
//! records and an event registry, and answers with the operations that
//! the retained side has to carry out.

pub mod error;
pub mod text;
pub mod style;
pub mod template;
pub mod events;
pub mod table;
pub mod backend;
pub mod naming;
pub mod scene;
pub mod instruction;
pub mod registry;
pub mod machine;
pub mod driver;
pub mod laws;

pub use crate::driver::Config;
