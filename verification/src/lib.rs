//! The decisions of an agent runtime, apart from the process that they run in: the stages of a
//! turn, the store of installed tool servers, the line that a command-line model is fed, what a
//! session lets a model do with its tools, and the order of the start, the socket and the traces.
//!
//! A module states what its functions do over the mathematical values behind their arguments.
//! Public proof functions whose names begin with `law_` relate several functions.

pub mod base64_text;
pub mod input_builder;
pub mod json;
pub mod registry;
pub mod session;
pub mod socket;
pub mod startup;
pub mod subconscious;
pub mod text;
pub mod tools;
pub mod trace_export;
