//! Decoder for a fixed-layout binary session file produced by a hardware
//! drum sequencer.
//!
//! The byte layout was recovered by reverse engineering, so every offset and
//! legal value range is a hypothesis to be checked rather than assumed: the
//! decoder reads each field through an explicit offset table, reports every
//! out-of-domain value through a diagnostic list without aborting, and only
//! fails outright when a read would fall outside the buffer.  A coverage
//! estimator reports how much of the file the tables account for, and a
//! renderer lays decoded patterns out as a text grid.

pub mod layout;
pub mod diag;
pub mod scalar;
pub mod drums;
pub mod settings;
pub mod scenes;
pub mod coverage;
pub mod render;
pub mod session;
