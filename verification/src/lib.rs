//! Finds, in an IPv4 subnet, the host whose interface carries a given hardware
//! address. The library holds the decisions of a scan; opening sessions to the
//! hosts is left to the program around it.
//!
//! - [`range`] expands a network in CIDR notation into its usable hosts.
//! - [`ssh_client`] holds the connection configuration and reads the hardware
//!   addresses out of what a host answered; [`keys`] brings key material into
//!   its normal form.
//! - [`scanner`] starts a scan and judges what each probe came back with;
//!   [`session`] is the scan itself, a machine that says which probe to
//!   launch next and when the scan is over; [`admission`] bounds the probes
//!   in flight.
//! - [`session_laws`] and [`scan_laws`] state what holds of every scan.
//! - [`cli`] and [`gui`] hold what the two front ends decide; [`errors`] the
//!   errors and their texts; [`text`] the text operations underneath.

pub mod admission;
pub mod cli;
pub mod errors;
pub mod gui;
pub mod keys;
pub mod range;
pub mod scan_laws;
pub mod scanner;
pub mod session;
pub mod session_laws;
pub mod ssh_client;
pub mod text;
