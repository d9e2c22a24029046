//! Plugin host logic: capability grants, command registry, lazy
//! activation, async job bookkeeping, audit trail, and path helpers.

#![allow(unused_imports)]

pub mod text;
pub mod keyed;
pub mod order;
pub mod json;
pub mod diagnostic;
pub mod paths;
pub mod path_edit;
pub mod dir_listing;
pub mod fs_limits;
pub mod clock;
pub mod audit;
pub mod grants;
pub mod capabilities;
pub mod commands;
pub mod activation;
pub mod async_jobs;
pub mod commit_data;
pub mod core_requests;
pub mod core_commands;
pub mod core_catalog;
pub mod health;
pub mod git_events;
pub mod naming;
pub mod shell;
pub mod repo_snapshot;
pub mod autocmd;
pub mod keymap_build;
pub mod ui_contrib;
pub mod dialog;
pub mod image_cache;
pub mod settings_values;
pub mod services;
pub mod migrations;
pub mod deferred;
