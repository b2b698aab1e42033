//! Verified core of an origin monitor: probe outcomes are classified and
//! recorded in a store, and an alert is raised when an origin fails too often
//! within a window, at most once per cooldown.

pub mod dashboard;
pub mod failure;
pub mod persistence;
pub mod poller;
pub mod templates;
