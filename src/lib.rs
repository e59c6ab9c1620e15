//! Account-pool reverse proxy core: pool management, session affinity,
//! request dispatch decisions, outcome telemetry and service lifecycle,
//! with the values the control plane builds around them.

pub mod pool;
pub mod sticky;
pub mod dispatch;
pub mod monitor;
pub mod config;
pub mod service;
pub mod engine;
pub mod events;
pub mod control;
pub mod models;
pub mod oauth;
pub mod version;
pub mod cli;
