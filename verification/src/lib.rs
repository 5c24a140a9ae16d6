//! Supervisor core for a desktop shell that launches a long-running backend
//! helper process, discovers the TCP port the backend bound to by scanning
//! its free-form console output, exposes that port to the rest of the
//! application, and tears the backend down cleanly when the shell closes.
//!
//! The modules hold the decision logic only; process spawning, stream
//! plumbing and filesystem work are left to a thin unverified driver.

pub mod cleanup;
pub mod coordinator;
pub mod fallback;
pub mod registry;
pub mod scan;
pub mod supervisor;
