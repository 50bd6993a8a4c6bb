//! EdgeMouse: the verified core of a two-computer mouse and keyboard sharing
//! agent. Platform adapters, sockets and floating-point geometry live outside
//! this crate and hand plain values to it.
use vstd::prelude::*;

pub mod agent_config;
pub mod cli;
pub mod clipboard;
pub mod config_text;
pub mod control;
pub mod diagnostics;
pub mod discovery;
pub mod exchange;
pub mod geometry;
pub mod import;
pub mod input;
pub mod keyboard;
pub mod link;
pub mod network;
pub mod pake;
pub mod pairing;
pub mod platform;
pub mod receiver;
pub mod redact;
pub mod session;
pub mod settings;
pub mod text;
pub mod topology;
pub mod wire;

verus! {

} // verus!
