//! Verified core of the `jlo` control-plane tool: configuration, branch and
//! requirement naming, narrator range selection, schedules and role
//! selection, mock runs, setup, templates, and the update and upgrade
//! plans.

pub mod text;
pub mod order;
pub mod path;
pub mod error;
pub mod layer;
pub mod data;
pub mod version;
pub mod source;
pub mod config;
pub mod run;
pub mod strategy;
pub mod requirement_path;
pub mod single_role;
pub mod schedule;
pub mod mock;
pub mod mock_run;
pub mod mock_implementer;
pub mod mock_decider;
pub mod narrator;
pub mod narrator_window;
pub mod manifest;
pub mod upgrade;
pub mod setup;
pub mod template;
