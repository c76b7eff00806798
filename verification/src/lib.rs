//! A connection-lifecycle supervisor for a stream server with graceful
//! shutdown, and the byte-echo protocol it serves.
//!
//! Nothing here opens a socket, spawns a task or waits. Each component is a
//! state machine that is told what happened and answers with what to do next,
//! so that what it decides can be proved for every course of events.

pub mod buffer;
pub mod cleanup;
pub mod protocol;
pub mod registry;
pub mod shutdown;
pub mod startup;
pub mod suffix;
pub mod supervisor;
pub mod system;
