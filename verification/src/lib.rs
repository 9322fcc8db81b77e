//! Verified core of a local LLM serving orchestrator.
//!
//! The library resolves model selections to download sources, generates the
//! multi-model routing configuration for the serving container, drives the
//! container lifecycle (including the CPU fallback when no accelerator is
//! available) as a verified state machine, and classifies the server's log
//! stream into discrete startup phases.  All I/O — prompts, file system,
//! subprocesses, network — lives outside this crate; the functions here are
//! pure decision and construction logic with proved contracts.

pub mod download;
pub mod lifecycle;
pub mod monitor;
pub mod resolver;
pub mod routing;
pub mod selection;
pub mod skills;
pub mod text;
