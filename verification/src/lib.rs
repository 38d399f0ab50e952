//! Verified core of the Enhanced Codex runtime.

pub mod bounded_continuation;
pub mod call_ids;
pub mod config;
pub mod context_projection;
pub mod context_pruner;
pub mod context_recovery;
pub mod debug_log;
pub mod digest;
pub mod hooks;
pub mod lockfile;
pub mod notifications;
pub mod relay;
pub mod replay;
pub mod reporting;
pub mod response_items;
pub mod runtime;
pub mod seams;
pub mod search;
pub mod telemetry;
pub mod text;
pub mod tool_observation;
pub mod tool_reliability;
