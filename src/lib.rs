//! Decision-making and micro-economy core of an agent simulation: per-agent
//! action execution, production, bilateral trade, price formation and
//! path requests, verified with Verus.
pub mod ai;
pub mod asset;
pub mod clock;
pub mod component;
pub mod delay;
pub mod market;
pub mod misc;
