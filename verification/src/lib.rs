//! Startup entry management engine.
//!
//! The library models autostart registrations (registry run keys, scheduled
//! tasks, services) as one unified entry type and verifies the engine that
//! works on them: filtering, sorting, whitelist exemption, batch action
//! aggregation, statistics, and the interactive session state machine.
//! The operating-system backends that scan and mutate the real registrations
//! live outside the library; the engine receives their results as plain
//! values and is verified for every value they could hand back.
pub mod text;

pub mod models;

pub mod filter;

pub mod actions;

pub mod logger;

pub mod batch;

pub mod stats;

pub mod whitelist;

pub mod session;

pub mod services;

pub mod backup;

pub mod config;

pub mod export;
