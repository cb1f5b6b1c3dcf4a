//! Authorization and privilege-transition engine of a setuid elevation tool.
//!
//! The library decides; the program around it performs the system calls.
//! Every decision made here is stated as a contract and proved.

pub mod bytes;
pub mod cache;
pub mod config;
pub mod engine;
pub mod executor;
pub mod invocation;
pub mod policy;
pub mod privilege;
