//! Request opcodes of `wl_compositor`.
use vstd::prelude::*;

verus! {

pub const CREATE_SERVICE: u16 = 0;

} // verus!
