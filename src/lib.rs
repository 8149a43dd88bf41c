use vstd::prelude::*;

pub mod bits;
pub mod bsp;
pub mod demo;
pub mod error;
pub mod gamelumps;
pub mod lumps;
pub mod packet;
pub mod reader;
pub mod stringtables;
pub mod text;
pub mod usercmd;
pub mod vpk;
pub mod vtf;

verus! {

} // verus!
