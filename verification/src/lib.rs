//! Simulation core of a two-dimensional siege game: deformable terrain,
//! ballistic projectiles, walking units and turrets, advanced frame by frame.
//!
//! All quantities are integers. World coordinates are measured in
//! thousandths of a terrain cell, time in nanoseconds; `y` grows downwards.
//!
//! The parts, from the leaves up:
//!
//! - `physics`, `ballistics`: places, velocities, time, and the step of
//!   integration with its error against free flight;
//! - `geom`: boxes and their overlap;
//! - `mask`, `terrain`, `line`, `debris`: the terrain mask, carving,
//!   collapse, lines across the cells, and the debris of a collapse;
//! - `cadence`, `unit`, `turret`, `projectile`: the rules of timers,
//!   units, turrets and projectiles;
//! - `store`, `world`, `lists`, `coherence`: the entities with their
//!   components, the shared resources and the buffer of deferred changes;
//! - `schedule`, `systems`, `frame`, `requests`: the systems, their order,
//!   and the frame;
//! - `level`: what a game is set up with and what a purchase brings.

pub mod ballistics;
pub mod cadence;
pub mod coherence;
pub mod debris;
pub mod frame;
pub mod geom;
pub mod level;
pub mod line;
pub mod lists;
pub mod mask;
pub mod physics;
pub mod projectile;
pub mod requests;
pub mod schedule;
pub mod store;
pub mod systems;
pub mod terrain;
pub mod turret;
pub mod unit;
pub mod world;
