//! Decision core of an AIS forwarding daemon.
//!
//! The daemon takes NMEA-0183 lines from one provider, reassembles
//! multi-fragment sentences, re-broadcasts a rate-limited copy of each vessel
//! report to a set of network endpoints and reports the own vessel's position
//! on a cadence that depends on whether it moves. This crate holds every
//! decision of that pipeline as verified code over plain values; sockets,
//! clocks and the sentence decoder are driven by the caller.
//!
//! Time is handed in by the caller as nanoseconds: a monotonic reading for
//! rate limiting, and a wall-clock reading since the Unix epoch for the
//! location cadence. Coordinates are fixed-point integers, see [`position`].

pub mod cadence;
pub mod clock;
pub mod dispatcher;
pub mod endpoint;
pub mod fanout;
pub mod message;
pub mod position;
pub mod rate_limit;
pub mod reassembly;
pub mod settings;
pub mod track;
