//! depot: a developer disk-space reclaimer and shared package store.

pub mod cli;
pub mod hub;
pub mod order;
pub mod paths;
pub mod project;
pub mod report;
pub mod run;
pub mod scan;
pub mod text;
pub mod tui;
pub mod util;
