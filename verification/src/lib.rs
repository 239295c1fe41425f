//! Jabberwok: push-to-talk speech-to-text service. This crate holds the
//! verified core: command-line grammar, configuration model, device
//! selection, readiness evaluation and reporting, download bookkeeping and
//! release helpers.
pub mod text;
pub mod cli;
pub mod xtask;
pub mod devices;
pub mod config;
pub mod state;
pub mod setup;
pub mod setup_worker;
pub mod setup_view;
pub mod daemon;
pub mod models;
pub mod commands;
pub mod platform;
pub mod logs;
pub mod service;
pub mod menu;
pub mod transcribe;
