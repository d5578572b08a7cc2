//! A verified disk-free report library: it parses mount-table records,
//! collapses bind-mount duplicates to one record per device, derives
//! per-mount space and inode usage with round-up percentages, formats
//! counts in human-readable units, and renders an aligned text table.
#![verifier::loop_isolation(false)]

pub mod cli;
pub mod dedup;
pub mod human;
pub mod mountinfo;
pub mod report;
pub mod strutil;
pub mod table;
pub mod usage;
