//! Brings up, rebuilds and tears down a test deployment of a mining pool
//! inside a fixed terminal-multiplexer topology.
//!
//! The library decides and the caller acts. An operation is turned into a
//! plan ([`plan`]), whose commands are rendered into calls of external
//! programs ([`render`]) and handed out one at a time by the controller
//! ([`controller`]). The caller performs each action and reports what
//! happened; the controller applies the failure policy of the stage and
//! moves on. What holds of every plan and every run is stated and proved in
//! [`laws`], and against a model of the multiplexer in [`model`].

pub mod account;
pub mod command;
pub mod component;
pub mod config;
pub mod controller;
pub mod error;
pub mod laws;
pub mod model;
pub mod plan;
pub mod render;
pub mod text;
pub mod topology;
