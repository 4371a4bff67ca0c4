//! Decision logic of a daemon that swaps boot, suspend and resume animations
//! in step with the lifecycle of the Steam client.
//!
//! The library holds the rules: which lifecycle event follows from an
//! observation, which animation is chosen, in which order a mount swap is
//! carried out, how a cache entry is named and which entries a cache sweep
//! removes. Reading the process table, running the transcoder and mounting
//! files are left to the program around it.

pub mod text;
pub mod config;
pub mod steam_monitor;
pub mod cache_sweep;
pub mod video_processor;
pub mod animation;
pub mod daemon;
