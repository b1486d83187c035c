//! Verified core of the remote task desktop: request validation, task state
//! machines, pairing rules, network status interpretation and the small text
//! formats the agent writes for the operating system.

pub mod access;
pub mod agent_tasks;
pub mod artifacts;
pub mod autostart;
pub mod controller;
pub mod desktop;
pub mod download;
pub mod environment;
pub mod identity;
pub mod json;
pub mod lifecycle;
pub mod model;
pub mod outside;
pub mod rdp;
pub mod runner;
pub mod remote_model;
pub mod schema;
pub mod service;
pub mod tailscale;
pub mod text;
pub mod worker;
