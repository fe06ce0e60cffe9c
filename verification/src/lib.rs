//! Mesh agents: the rules behind directory-backed A2A agents.

pub mod acp;
pub mod artifacts;
pub mod authoring;
pub mod card;
pub mod codex;
pub mod config;
pub mod gates;
pub mod json;
pub mod locations;
pub mod mesh;
pub mod names;
pub mod order;
pub mod pairs;
pub mod paths;
pub mod plugin;
pub mod registry;
pub mod service;
pub mod skills;
pub mod stream;
pub mod task_store;
pub mod templates;
pub mod text;
pub mod tools;
pub mod validation;
pub mod wire;
