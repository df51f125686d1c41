//! A repository-exploration agent: the plan, execute and review loop, the
//! interpreter of its two probe commands, and the ignore-aware directory
//! tree renderer, as a verified functional core.

pub mod action;
pub mod action_laws;
pub mod agent;
pub mod error;
pub mod gitignore;
pub mod pattern;
pub mod session;
pub mod session_laws;
pub mod show_file;
pub mod text;
pub mod tree;
pub mod tree_laws;
pub mod walk;
pub mod walk_laws;
