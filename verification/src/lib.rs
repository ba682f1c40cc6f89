//! Configuration model, hook resolution and the decision logic of the `prek`
//! git-hook manager, with machine-checked contracts.
mod text;

pub mod config;
pub mod options;
pub mod loading;
pub mod version;
pub mod patterns;
pub mod hook;
pub mod cli;
pub mod hook_impl;
pub mod auto_update;
pub mod rev_lines;
pub mod install;
pub mod order;
pub mod workspace;
pub mod uv;
pub mod try_repo;
pub mod project;

pub use text::{decimal_digits, format_decimal};
