//! Esprit: the verified core of a local-first AI workspace tool.

pub mod text;
pub mod daemon;
pub mod models;
pub mod ui;
pub mod filesystem;
pub mod index;
pub mod agents;
pub mod rag;
pub mod memory;
pub mod counters;
pub mod pipeline;
pub mod updater;
pub mod config;
pub mod api;
pub mod ai;
pub mod application;
pub mod codeintel;
pub mod search;
pub mod graph;
pub mod watcher;
pub mod analysis;
pub mod stats;
pub mod doctor;
pub mod database;
pub mod cli;
pub mod cache;
pub mod prompts;
