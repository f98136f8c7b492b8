//! Request opcodes of `wl_buffer`.
use vstd::prelude::*;

verus! {

pub const DESTROY: u16 = 0;

} // verus!
