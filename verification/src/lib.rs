//! Pointer hotspot triggers for screen edges and corners.
//!
//! A hotspot is a thin rectangular zone along one of the eight edge or
//! corner positions of a display. The library resolves which hotspot a
//! pointer coordinate falls in, applying per-screen override precedence
//! over global defaults, and runs a dwell state machine that turns a
//! stream of periodic samples into at-most-once enter and leave actions.

pub mod config;
pub mod detector;
pub mod laws;
pub mod tracker;
