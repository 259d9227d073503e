//! Planning and executing rewrites of recent git history: the plan model and its
//! interactive builder, hunk decomposition and patch synthesis, the control scripts that
//! drive the rebase engine, and the executor's decisions.

pub mod actions;
pub mod args;
pub mod builder;
pub mod commit_config;
pub mod config;
pub mod detect;
pub mod error;
pub mod execute;
pub mod github;
pub mod guard;
pub mod models;
pub mod plan;
pub mod provider;
pub mod reword;
pub mod script;
pub mod selection;
pub mod split;
pub mod templates;
pub mod text;
pub mod update;
