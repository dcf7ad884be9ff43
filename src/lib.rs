//! Verified core of an HTTP load generator: the duration and header grammars,
//! target resolution, the connection worker's decisions and the latency
//! statistics.

mod text;
pub mod duration;
pub mod header;
pub mod target;
pub mod stats;
pub mod worker;
