//! Command-processing core of a hardware signing device.
//!
//! The library holds the logic of the device's command loop: a resumable
//! parser engine that can pause at a chunk boundary and continue on the next
//! command, the single persistent slot that keeps one paused computation
//! alive between round trips, the template-verification and signing state
//! machine, the fixed-size section wire format, and the content-addressed
//! single-slot chunk store.  Transport, screen rendering and the event loop
//! itself live outside the library; hashing, key derivation and signing are
//! reached through narrow trusted wrappers.

pub mod crypto;
pub mod denote;
pub mod diag;
pub mod dispatch;
pub mod engine;
pub mod interface;
pub mod section;
pub mod session;
pub mod store;
pub mod text;
