//! Core of a real-time audio passthrough pipeline.
//!
//! Captured samples travel through a bounded single-producer/single-consumer
//! channel to the render side, while a dedicated worker thread owns the two
//! audio streams and reacts to control commands.  This crate holds the parts
//! worth reasoning about: the channel's bounded FIFO discipline, the
//! non-blocking capture and render frame loops, and the worker's state
//! machine.  Opening devices, registering callbacks and running threads is
//! the caller's business.
//!
//! A sample is carried as the raw bit pattern (`u32`) of its 32-bit float
//! amplitude; silence (amplitude zero) is the all-zero pattern.

pub mod channel;
pub mod command;
pub mod frames;
pub mod worker;
