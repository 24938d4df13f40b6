//! A verified core for a concurrent TCP port scanner.
//!
//! The library holds the logic of a scan: planning a port range into
//! batches, validating target addresses, classifying the outcome of a
//! connection attempt, and collecting the open endpoints out of a batch
//! of probe results. The networking itself (the TCP handshakes and the
//! concurrent fan-out) is driven by an unverified shell around this
//! crate, which feeds each batch's probe results back into the verified
//! collection functions.

pub mod addr;
pub mod laws;
pub mod outcome;
pub mod plan;
pub mod scanner;

pub use scanner::Scanner;
