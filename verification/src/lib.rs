//! Decision logic of the Sentinella endpoint agent.
//!
//! The agent inspects scripts before they run ([`amsi_provider`]), scans files
//! in an isolated worker ([`clamav_worker`]) and filters the machine's DNS
//! ([`web_protection`]). What it decides on the way is here, from plain values to
//! plain values; pipes, processes, sockets and the registry are outside.
//!
//! Where outside work and decisions alternate, a *run* is a value that names the
//! next action, and a step takes in what that action came to. The laws about a
//! run are stated over its steps, or over whole histories of them.

pub mod amsi_provider;
pub mod clamav_worker;
pub mod text;
pub mod utf16;
pub mod web_protection;
