//! Agent conversations backed by a local language model.

pub mod actions;
pub mod bridge;
pub mod bridge_laws;
pub mod calendar;
pub mod config;
pub mod config_laws;
pub mod events;
pub mod extraction;
pub mod extraction_laws;
pub mod fact_laws;
pub mod facts;
pub mod generation;
pub mod history;
pub mod history_laws;
pub mod importance;
pub mod json;
pub mod model;
pub mod naming;
pub mod naming_laws;
pub mod number_laws;
pub mod objects;
pub mod operation_laws;
pub mod pace;
pub mod playback;
pub mod playback_laws;
pub mod prompt;
pub mod prompt_laws;
pub mod reply;
pub mod reply_laws;
pub mod rounding;
pub mod schema;
pub mod schema_laws;
pub mod session_laws;
pub mod sessions;
pub mod table;
pub mod task_laws;
pub mod text;
pub mod text_laws;
pub mod tools;
pub mod turn;
pub mod types;
pub mod view_laws;
