//! A small model of continuous-integration pipelines.
//!
//! A pipeline is described once, as jobs made of steps made of commands, and
//! can then be turned into a workflow document for a hosted runner or be
//! replayed command by command on the local machine.

pub mod views;
pub mod text;
pub mod platform;
pub mod replay;
pub mod command;
pub mod step;
pub mod toolchain;
pub mod workflow;
pub mod ci;
