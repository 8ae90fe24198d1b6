//! A TCP port-scanning engine: target expansion, probe classification and a
//! bounded-concurrency, rate-limited scheduler, all with proved contracts.
//! Sockets, timers and rendering are left to the caller.

pub mod address;
pub mod target;
pub mod probe;
pub mod scheduler;
pub mod service;
