//! A network reconnaissance engine: target enumeration, liveness probing,
//! batched TCP connection scanning and service fingerprinting.
//!
//! Everything here is the deciding half of the scanner. Sockets, timers and
//! tasks live with the caller, who reports what happened on the wire and is
//! told what to do next.

pub mod fingerprint;
pub mod scanner;
pub mod utils;
