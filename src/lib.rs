//! Resolution of a project configuration into a plan of active plugins:
//! version gating, source catalogs, platform matching and plugin resolution.

pub mod config;
pub mod platform;
pub mod search;
pub mod plugin;
pub mod source;
pub mod version;
