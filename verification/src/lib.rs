//! Keeps a third-party desktop client patched while it runs.
//!
//! The library holds the verified core of the patch lifecycle controller:
//! a byte-level find-and-replace patch engine, the command protocol of the
//! remote control channel, the readiness probe decisions, and the polling
//! state machine that decides when to patch and when to revert.  All file,
//! network and process I/O lives outside the library and feeds it plain
//! values.

pub mod config;
pub mod devices;
pub mod lifecycle;
pub mod patch;
pub mod steam;
pub mod text;
