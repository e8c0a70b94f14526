//! Core model of a live latency monitor: fixed-capacity per-source ring
//! buffers, sliding-window axis envelopes, cross-source axis bounds and
//! labels, on-demand histogram statistics, and the event routing that a
//! single render loop applies to the shared state.

pub mod aggregate;
pub mod events;
pub mod hist;
pub mod labels;
pub mod ring;
pub mod series;
