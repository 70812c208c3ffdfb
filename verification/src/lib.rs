//! A host-side compute runtime: it validates kernel argument bindings and
//! NDRange launches against a device's derived capability set and tracks
//! submitted commands in a dependency graph of events.
//!
//! The library holds the rules and the state; it never talks to a backend,
//! reads the environment or blocks. Whoever drives it hands it plain values
//! and carries out what it decides.

pub mod error;
pub mod bytes;
pub mod objects;
pub mod screen;
pub mod version;
pub mod format;
pub mod device;
pub mod extensions;
pub mod program;
pub mod kernel;
pub mod kernel_info;
pub mod launch;
pub mod event;
pub mod queue;
pub mod as_slice;
