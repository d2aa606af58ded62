//! Coordination engine for a sequential web-page capture pipeline.
//!
//! The engine reconciles three execution contexts — an event-driven
//! rendering surface, a strictly sequential capture supervisor, and a
//! debounce feeder that delays "page ready" signals — into one
//! cancellable pipeline that captures one target at a time.
//!
//! Everything here is plain decision logic: which signal to forward,
//! which action a control message demands, what the supervisor does
//! next.  The rendering surface, the channels and the threads that
//! carry these decisions live outside the library.

pub mod feeder;
pub mod laws;
pub mod model;
pub mod supervisor;
pub mod surface;
