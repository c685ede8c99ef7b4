//! Incident-response workflow for SRE teams: domain model, policy and
//! approval guardrails, audit timeline, session memory, command-line
//! parsing and the orchestration state machine.

pub mod text;
pub mod domain;
pub mod policy;
pub mod approval;
pub mod audit;
pub mod memory;
pub mod config;
pub mod cli;
pub mod tools;
pub mod engine;
pub mod providers;
pub mod console;
