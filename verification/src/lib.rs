//! Verified core of a runtime for ARM32 iOS application images.
#![verifier::loop_isolation(false)]
use vstd::prelude::*;

pub mod backend;
pub mod bootstrap;
pub mod control;
pub mod disasm;
pub mod error;
pub mod framebus;
pub mod input;
pub mod inputbus;
pub mod memory;
pub mod plan;
pub mod profiles;
pub mod surface;
pub mod text;

