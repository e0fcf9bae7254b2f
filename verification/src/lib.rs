//! A single-shot adapter for AI-assistant lifecycle hook events.
//!
//! One JSON object arrives per invocation. Its hook type is resolved either
//! from an explicit `hook_event_name` field or, for producers that encode the
//! event identity as a dotted string (`tool.execute.before` and the like),
//! by normalization against a closed mapping table. A concrete hook variant
//! is then constructed and folds a sequence of handler outcomes into the
//! JSON reply shape that its producer expects.

pub mod event;
pub mod hooks;
pub mod json;
pub mod opencode;
