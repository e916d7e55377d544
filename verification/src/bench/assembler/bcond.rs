//! Branch condition codes (funct3 of B-type instructions).

use vstd::prelude::*;

verus! {

pub const EQ: u32 = 0;
pub const NE: u32 = 1;
pub const LT: u32 = 4;
pub const GE: u32 = 5;
pub const LTU: u32 = 6;
pub const GEU: u32 = 7;

} // verus!
