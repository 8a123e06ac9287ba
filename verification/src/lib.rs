//! A library that gathers a small, fixed set of local machine facts — user
//! and host, OS release, kernel version, shell, desktop environment, uptime,
//! memory usage and root-filesystem usage — as display-ready strings.
//!
//! Every probe is a pure computation over one snapshot of ambient state; the
//! caller reads the environment variables, pseudo-files and system-call
//! results and hands them in as plain values, so the probes can be exercised
//! against fixtures as easily as against the live machine.

pub mod colors;
pub mod desktop;
pub mod error;
pub mod facts;
pub mod numfmt;
pub mod release;
pub mod system;
pub mod text;
pub mod uptime;
