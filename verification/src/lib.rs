//! Policy logic of a small Landlock-based sandbox launcher: command deny rules,
//! configuration merging, environment sanitisation, path expansion and the
//! rule plans handed to the kernel.
pub mod strings;
pub mod command;
pub mod config;
pub mod merge;
pub mod sanitize;
pub mod env_policy;
pub mod paths;
pub mod settings;
pub mod toml_doc;
pub mod trust;
pub mod rules;
pub mod landlock_raw;
pub mod sandbox_rules;
pub mod landlock;
pub mod profile;
pub mod cli;
pub mod seccomp;
