pub mod arith;
pub mod cell;
pub mod charset;
pub mod config;
pub mod cloud;
pub mod droplet;
pub mod frame;
pub mod palette;
pub mod rng;
pub mod runtime;
pub mod terminal;
pub mod text;

use vstd::prelude::*;

verus! {

} // verus!
