//! Simulation core of a turn-based roguelike: an entity-component store, a
//! spatial index over map regions, an event/response protocol and a turn
//! scheduler.

pub mod component;
pub mod error;
pub mod event;
pub mod game;
pub mod logger;
pub mod map;
pub mod random;
pub mod resources;
pub mod spawning;
pub mod system;
pub mod ui;
pub mod world;
