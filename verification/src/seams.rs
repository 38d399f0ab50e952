//! The seams at which the agent loop meets the runtime: the context of a request,
//! tool calls and their results, and the end of a turn.

pub mod context;
pub mod session;
pub mod tools;
pub mod turns;
