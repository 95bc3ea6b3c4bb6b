//! Concurrent chapter harvesting: catalog resolution, bounded dispatch,
//! stall-aware result collection and ordered reassembly of a serialized text.

pub mod catalog;
pub mod collector;
pub mod config;
pub mod dispatch;
pub mod extract;
pub mod reassemble;
pub mod text;
pub mod transport;
pub mod worker;
