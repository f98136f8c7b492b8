//! Event opcodes of `wl_display`.
use vstd::prelude::*;

verus! {

pub const ERROR: u16 = 0;

} // verus!
