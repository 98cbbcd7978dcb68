//! Workspace configuration model for an isolated Neovim environment manager:
//! dependency entries, the dependency set, the plugin-manager alias and the
//! document that combines them, together with the decisions of the command
//! line front end.
pub mod cli;
pub mod config;
pub mod plugin;
pub mod value;

pub use cli::run;
