//! A snake on an integer grid: its heading, the cells it occupies from head
//! to tail, and the tail cell it gave up on its latest move, which lets it grow.
use vstd::prelude::*;

pub mod direction;
pub mod snake;

verus! {

} // verus!
