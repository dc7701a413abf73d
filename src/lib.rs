use vstd::prelude::*;

pub mod utf8;
pub mod strings;
pub mod line;
pub mod message;
pub mod config;
pub mod buffer;
pub mod editor;
pub mod prompt;
pub mod search;
pub mod session;
pub mod render;
pub mod laws;

verus! {

} // verus!
