//! Control plane of a small deployment node: the state machine that drives a
//! deployment through clone, install, build and run, the texts it logs and
//! the paths it writes, and the registry that keeps one active deployment per
//! project.

pub mod errors;
pub mod messages;
pub mod pipeline;
pub mod records;
pub mod registry;
pub mod status;
pub mod text;
