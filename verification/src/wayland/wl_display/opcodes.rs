//! Request opcodes of `wl_display`.
use vstd::prelude::*;

verus! {

pub const GET_REGISTRY: u16 = 1;

} // verus!
