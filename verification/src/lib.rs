//! Routing decisions for language-model traffic.
//!
//! The crate decides and never calls: each router is a set of steps that take
//! what came back from the last call and say what to do next. Whoever drives it
//! makes the calls. Laws that relate several functions are the proof functions
//! whose names start with `law_`.

pub mod anthropic;
pub mod backend;
pub mod binary;
pub mod classification;
pub mod escalation;
pub mod handoff_notes;
pub mod json_text;
pub mod llm_class;
pub mod protocol;
pub mod sse;
pub mod stage;
pub mod stage_router;
pub mod state;
pub mod target;
pub mod text;
pub mod tier_prompts;
