//! Latest-known reachability of a fixed set of devices and web domains.
//!
//! `monitor` decides what each per-target loop does and records what its
//! probes find; `status` holds the shared table and copies it out in name
//! order; `registry` turns the configured targets into monitors.
pub mod monitor;
pub mod order;
pub mod registry;
pub mod status;
pub mod table;
