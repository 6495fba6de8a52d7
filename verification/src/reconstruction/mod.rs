//! Reconstruction: building projections from events.
//!
//! Each entity exposes a `replay` function that folds its event stream, in
//! chronological order, into the fully reconstructed object. Every entity's
//! events include a `Snapshot` variant that sets its full state at once; the
//! fold applies it as a wholesale overwrite (or a bootstrap, if it's the first
//! event), preserving the original creation time.
//!
//! Reconstruction is a blind fold: it never knows whether a stream includes a
//! seed. Seeds are assembled into the stream by the storage layer; by the time
//! events reach `replay`, a seed is just an ordinary leading snapshot event.

pub mod project;
pub mod status;
pub mod task;
