//! Web protection: a DNS proxy, the rule that sends the machine's names to it,
//! and the watchdog that takes the rule away when the proxy fails.

pub mod lists;
pub mod retry;
pub mod rule;
pub mod service;
pub mod start;
pub mod status;
pub mod watchdog;
