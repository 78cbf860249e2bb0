//! A link-translation service's library: the multi-sink logging pipeline
//! (severity filters, record formatting, rotating file destinations, bounded
//! per-sink queues with drain-on-release, fan-out and the builder that wires
//! them from configuration), and the service's request logic (platform
//! detection, signed API parameters, answers and errors).
use vstd::prelude::*;

pub mod clock;
pub mod database;
pub mod destination;
pub mod error;
pub mod fanout;
pub mod format;
pub mod level;
pub mod params;
pub mod pdd;
pub mod pipeline;
pub mod platform;
pub mod rotation;
pub mod settings;
pub mod signature;
pub mod sink;
pub mod text;

verus! {

} // verus!
