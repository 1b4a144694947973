//! Verified core of a lightweight offline Minecraft launcher.
use vstd::prelude::*;

pub mod text;
pub mod manifest;
pub mod rules;
pub mod digest;
pub mod auth;
pub mod config;
pub mod download;
pub mod java;
pub mod installed;
pub mod launch;
pub mod commands;

verus! {
} // verus!
