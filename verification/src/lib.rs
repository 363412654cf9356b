//! Verified core of a historical-quote retrieval tool.
//!
//! The crate has two halves. The fetch half plans one provider request per
//! symbol (URL, output name, pacing) and classifies each response as a
//! success or a typed failure, keeping failures isolated per symbol. The
//! transform half turns a decoded columnar chart payload into row-oriented
//! datasets with fixed-offset timestamps, and renders them as CSV text.
//! All I/O (argument parsing, HTTP, files) lives outside this crate.

pub mod chart;
pub mod csv;
pub mod date;
pub mod fetch;
pub mod num;
pub mod time;
pub mod text;
