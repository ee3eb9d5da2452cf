//! ncpages — watch a Nextcloud folder, build a static site when it changes,
//! publish it atomically, and serve it.
//!
//! This crate is the decision-making core: every rule the service applies
//! between a trigger and a published release is a function here, with its
//! contract checked by Verus. Reading files, talking HTTP and running programs
//! happen in the service binary, which hands the results to these functions.

pub mod agent;
pub mod cli;
pub mod config;
pub mod doctor;
pub mod fsutil;
pub mod gate;
pub mod hooks;
pub mod order;
pub mod paths;
pub mod pipeline;
pub mod publish;
pub mod push;
pub mod report;
pub mod scheduler;
pub mod serve;
pub mod source;
pub mod state;
pub mod strmap;
pub mod text;
pub mod xml;
