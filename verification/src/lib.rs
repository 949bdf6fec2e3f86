//! Decision logic of the Herdr terminal multiplexer's remote, desktop and
//! command-line surfaces.

pub mod api;
pub mod app;
pub mod cli;
pub mod desktop_mcp;
pub mod desktop_queue;
pub mod digest;
pub mod events;
pub mod json;
pub mod path;
pub mod random;
pub mod remote_resume;
pub mod text;
