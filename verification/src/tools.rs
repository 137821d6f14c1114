//! What a session lets the model do with its tools: which calls are refused, which tools are shown
//! and which are found by search, and when research has to end.

pub mod policy;
pub mod research;
pub mod search;
