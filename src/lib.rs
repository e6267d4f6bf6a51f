//! A small package manager's repository client: signed archives fetched
//! from an ordered list of mirrors into a local cache, checked against their
//! signature files, and upgrade plans from a repository manifest.
//!
//! The library makes every decision; the caller performs the downloads and
//! the file system work that each decision asks for.
use vstd::prelude::*;

pub mod commands;
pub mod config;
pub mod digest;
pub mod meta;
pub mod progress;
pub mod repo;
pub mod text;
pub mod upgrade;

verus! {

} // verus!
