//! Open Forge: the verified core of an AI-first game creation platform.
//!
//! The crate holds the data models, registries, stores, message bus,
//! authentication decisions, scene validation and light-runtime logic of
//! the platform, each with a contract proved by Verus.

pub mod text;
pub mod table;
pub mod json;
pub mod sorting;
pub mod registry;
pub mod canvas;
pub mod renderer;
pub mod runtime;
pub mod scene_runner;
pub mod bus;
pub mod clock;
pub mod assets;
pub mod script;
pub mod ids;
pub mod models;
pub mod error;
pub mod state;
pub mod auth;
pub mod routes;
pub mod pipeline;
pub mod laws;
