//! Core behaviour layer of a top-down survival game: a traversability grid,
//! A*-based grid pathfinding with corner-cutting diagonals, NPC perception,
//! the Chill/Look/Chase/Escape/Attack/Dead state machine, and a smoothed
//! movement integrator.  All world quantities are fixed-point integers in
//! milli-pixels so that every computation is exact.

pub mod geom;
pub mod math;
pub mod grid;
pub mod transform;
pub mod pathfind;
pub mod motion;
pub mod percept;
pub mod combat;
pub mod agent;
