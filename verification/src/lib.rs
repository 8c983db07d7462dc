//! Building blocks for command-line tools and managed system services.

#![verifier::loop_isolation(false)]

pub mod artifact_store;
pub mod build_laws;
pub mod cancel;
pub mod command_reading;
pub mod config_text;
pub mod containers;
pub mod debug_text;
pub mod digest;
pub mod display_laws;
pub mod duration;
pub mod gcp;
pub mod lock;
pub mod managed;
pub mod order;
pub mod path_laws;
pub mod paths;
pub mod process;
pub mod progress;
pub mod search;
pub mod shell;
pub mod store;
pub mod syntheon;
pub mod temp;
pub mod termination;
pub mod text;
pub mod text_laws;
pub mod tool_laws;
pub mod ui;
pub mod unix_path;
pub mod version;
