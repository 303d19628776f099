//! Connection lifecycle and background read-loop decisions for a stream
//! connection whose incoming bytes are dispatched to a handler.
//!
//! The socket and the worker thread live with the caller; this crate decides
//! what each of them does next, and states those decisions as contracts.
use vstd::prelude::*;

pub mod lifecycle;

pub use lifecycle::{Lifecycle, Phase, StartError};
pub mod read_loop;

pub use read_loop::{new_frame, ReadLoop, ReadOutcome, WorkerStep, FRAME_LEN};
