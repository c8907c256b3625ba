//! Launch planning for a Steam compatibility tool that prefers native
//! runtimes: layered per-title configuration, payload discovery, delegation
//! to another compatibility tool, and composition of the child's environment.

pub mod config;
pub mod config_file;
pub mod env;
pub mod ld_paths;
pub mod path_search;
pub mod paths;
pub mod runtime;
pub mod text;
pub mod util;
