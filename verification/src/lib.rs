//! Verified core of a forward-proxy liveness scanner.
//!
//! The library holds the logic of the scan: parsing candidate proxy records
//! from comma-separated lines, framing the HTTP probe request, splitting and
//! decoding the probe response, deciding whether a proxy is alive, and the
//! bookkeeping of the bounded-concurrency run. Network and file I/O live
//! outside the library and hand it plain values.

pub mod coordinator;
pub mod evaluate;
pub mod probe;
pub mod record;
pub mod text;
