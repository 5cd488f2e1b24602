//! Verified core of a command-line manager for an Nginx reverse proxy that
//! routes host ports to Docker containers.
pub mod config;
pub mod docker;
pub mod install;
pub mod manager;
pub mod nginx;
pub mod ops;
pub mod paths;
pub mod store;
pub mod text;
pub mod tui;
pub mod tui_app;
pub mod tui_view;

pub use config::DEFAULT_PORT;
use vstd::prelude::*;

verus! {

/// The name of the application, used for its data directory.
pub const APP_NAME: &'static str = "proxy-manager";

} // verus!
