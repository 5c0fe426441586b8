//! Core of a small feed-forward neural-network training engine.
//!
//! The numeric work of the engine runs on IEEE single-precision values,
//! which this verified core does not compute with.  What is verified here
//! is everything the engine decides and keeps track of besides that
//! arithmetic: the binary dataset layout, the shape plan of a layered
//! model, mini-batch partitioning, index shuffling, one-hot labels and
//! arg-max selection.  Pixel values travel through this crate as their
//! raw bit patterns (`u32`), so the layout proofs speak about exactly the
//! words an engine will interpret as floats.

pub mod data;
pub mod layer;
pub mod model;
pub mod optim;
pub mod trainer;
