//! Verified core logic of the Aster agent framework: text normalisation,
//! context-trace redaction, context-overflow recovery, skill front matter,
//! todo bookkeeping, file-history rewinding and the tool helpers built on them.

pub mod text;
pub mod trace;
pub mod retry;
pub mod skills;
pub mod teleport;
pub mod json;
pub mod tool;
pub mod todo;
pub mod subagent;
pub mod ask;
pub mod read;
pub mod rewind;
pub mod plugins;
pub mod image;
pub mod pointer;
pub mod a2ui;
pub mod protocol;
pub mod routes;
pub mod tools;
pub mod workflow;
pub mod web;
pub mod web_cache;
pub mod updater;
pub mod agent_control;
