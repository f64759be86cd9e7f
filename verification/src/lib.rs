//! Fan, lighting, and display control: configuration rules, policy engine,
//! device protocols, and the local command protocol.

use vstd::prelude::*;

pub mod answers;
pub mod celsius;
pub mod client;
pub mod config;
pub mod control;
pub mod curve;
pub mod daemon;
pub mod doctor;
pub mod drivers;
pub mod engine;
pub mod error;
pub mod fan_test;
pub mod guarantees;
pub mod ipc;
pub mod json;
pub mod laws;
pub mod lifecycle;
pub mod names;
pub mod policy;
pub mod promises;
pub mod run;
pub mod search;
pub mod status;
pub mod text;
pub mod types;
pub mod validation;
pub mod views;

verus! {

} // verus!
