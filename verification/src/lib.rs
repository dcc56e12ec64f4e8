//! Discovery of locally attached receipt and label printers.
//!
//! A platform layer enumerates device nodes, serial ports, devices on the
//! USB bus and the records of a property service. From those listings this
//! library makes the ranked list of printer candidates:
//!
//! - [`model`]: transports, dedup keys, candidates and their evidence;
//! - [`scan`]: the scanners, from a listing to raw candidates;
//! - [`enrich`]: the property index, and enrichment from its records;
//! - [`heuristics`]: the confidences, the notes and the brand keywords;
//! - [`fusion`]: one candidate for each endpoint;
//! - [`ranking`]: the stable order by confidence;
//! - [`discover`]: the backends and the provider that picks one;
//! - [`text`]: trimming, searching and formatting of text.
pub mod discover;
pub mod enrich;
pub mod fusion;
pub mod heuristics;
pub mod model;
pub mod ranking;
pub mod scan;
pub mod text;
