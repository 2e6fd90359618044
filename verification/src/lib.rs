use vstd::prelude::*;

pub mod text;
pub mod ids;
pub mod order;
pub mod digest;
pub mod error;
pub mod server;
pub mod card;
pub mod activation;
pub mod paths;
pub mod storage;
pub mod managed;
pub mod cloud;
pub mod diagnostics;
pub mod commands;

verus! {
} // verus!
