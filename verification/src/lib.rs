//! Decision logic of a game launcher: its download queue, version rules,
//! manifest and configuration text handling, proved with Verus.

pub mod text;
pub mod payload;
pub mod queue;
pub mod queue_laws;
pub mod versions;
pub mod games;
pub mod scan;
pub mod compat;
pub mod linked_map;
pub mod models;
pub mod plan;
pub mod launch;
pub mod ini;
pub mod network;
pub mod migrations;
pub mod shortcuts;
pub mod installs;
pub mod extras;
pub mod laws;
pub mod runners;
pub mod cli;
pub mod session;
pub mod folders;
pub mod patches;
pub mod host;
pub mod repository;
pub mod locales;
pub mod compat_laws;
pub mod rule_laws;
