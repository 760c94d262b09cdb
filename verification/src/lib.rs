//! Host-side registry of dynamically loaded plugins.
//!
//! The registry tracks loaded plugins in load order, gates symbol resolution
//! on each plugin's activation state, and builds ordered call chains. Opening
//! a library and looking up a symbol are supplied by the host as closures, so
//! the registry itself never touches a native handle.

pub mod config;
pub mod error;
pub mod path;
pub mod plugin;
pub mod registry_model;
pub mod result;
