//! A minimal entity-component simulation core for a fixed periodic tick.
//!
//! The world holds a bounded population of entities, each carrying a subset
//! of typed components (position, velocity, counter). An ordered schedule of
//! systems mutates and observes that state once per tick: movement with
//! boundary reflection on a closed grid, grid rendering to text lines, and
//! counter increment. Every function is specified against a mathematical
//! model of the world and verified.

pub mod components;
pub mod model;
pub mod world;
pub mod systems;
pub mod schedule;
pub mod laws;
