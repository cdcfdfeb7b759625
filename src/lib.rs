use vstd::prelude::*;

pub mod config;
pub mod laws;
pub mod message;
pub mod session;
pub mod text;

verus! {

} // verus!
