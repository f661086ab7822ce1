//! Control substrate for driving a real-time strategy engine over a
//! request/response channel: per-tick world-state classification and
//! counters, one-time expansion-site detection, ramp-wall geometry,
//! order batching, and the session lifecycle state machine.
//!
//! All world coordinates are fixed-point integers in milli-tiles
//! (one map tile = 1000 units), so every geometric computation here is
//! exact integer arithmetic with a pinned-down result.

pub mod bot;
pub mod command;
pub mod counters;
pub mod expansion;
pub mod game_data;
pub mod geom;
pub mod grid;
pub mod ids;
pub mod ramp;
pub mod session;
pub mod unit;
pub mod util;
pub mod units;
pub mod vecmap;
