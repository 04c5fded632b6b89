//! Verified core of a small system monitor: the metrics model, process
//! ordering and table navigation, byte-size rendering, and the decoding of
//! the accelerator registry's client records.

pub mod ieee;
pub mod metrics;
pub mod procs;
pub mod creator;
pub mod text;
pub mod size;
pub mod figures;
pub mod gpu;
pub mod table;
pub mod web;
pub mod dashboard;
