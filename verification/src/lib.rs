//! A verified core for a network throughput measurement tool.
//!
//! The engine measures achievable throughput by performing timed HTTP
//! download and upload transfers and reporting an average rate in
//! bytes per second.  This crate holds the part with real design
//! decisions — duration-bounded session accounting, multi-endpoint
//! fallback, and the progress-report cadence — as verified state
//! machines over plain values (byte counts and millisecond
//! timestamps).  The surrounding program performs the HTTP transfers
//! and feeds every observation into these machines, which decide what
//! happens next.

pub mod cli;
pub mod error;
pub mod speedtest;
