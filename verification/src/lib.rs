//! Verified core of a terminal GPU monitor for MIG environments: metric
//! snapshots, bounded time-series histories, selection state, process
//! ranking and the rules that turn raw readings into displayed values.

pub mod app;
pub mod display;
pub mod event;
pub mod history;
pub mod keyed;
pub mod labels;
pub mod library;
pub mod metrics;
pub mod panels;
pub mod processes;
pub mod session;
pub mod text;
pub mod utilization;
