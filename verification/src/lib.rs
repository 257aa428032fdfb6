//! Filters newline-delimited JSON records of negotiated billing rates by their
//! average price and renders the survivors as CSV rows, with run statistics.
//!
//! A line is parsed into a record ([`json`], [`shape`], [`record`]); the rates
//! of the record are averaged by the caller, and the record is kept where the
//! average is at most thirty ([`threshold`], [`pipeline`]). A run counts every
//! line, collects the CSV rows of the records kept, and words the diagnostics
//! and the summary ([`stats`], [`sink`], [`report`], [`run`]). What holds of
//! every run is proved in [`laws`].

pub mod json;
pub mod laws;
pub mod pipeline;
pub mod record;
pub mod report;
pub mod run;
pub mod shape;
pub mod sink;
pub mod stats;
pub mod threshold;
