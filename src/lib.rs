use vstd::prelude::*;

pub mod args;
pub mod config;
pub mod connection;
pub mod directory;
pub mod frame;
pub mod packet;
pub mod speedtest;
pub mod text;
pub mod transfer;
pub mod upload;
pub mod wire;

verus! {

} // verus!
