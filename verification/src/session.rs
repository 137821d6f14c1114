//! One agent turn: what is admitted, what a failed turn leaves behind, how a finished turn's
//! reply, history and accounting are put together, and in which order all of this happens.

pub mod failure;
pub mod messages;
pub mod run;
pub mod snapshot;
pub mod tools;
pub mod turn;
