//! Synthesis of a referentially consistent social-networking dataset:
//! dependency-ordered generation of typed rows, the swipe/match
//! interaction simulation, bulk-load framing and the stage orchestrator.
pub mod error;
pub mod ratio;
pub mod clock;
pub mod random;
mod text;
pub mod decimal;
pub mod runs;
pub mod config;
pub mod models;
pub mod pools;
pub mod catalog;
pub mod users;
pub mod content;
pub mod interactions;
pub mod social;
pub mod bulk;
pub mod pipeline;
