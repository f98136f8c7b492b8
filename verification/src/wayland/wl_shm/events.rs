//! Event opcodes of `wl_shm`.
use vstd::prelude::*;

verus! {

pub const FORMAT: u16 = 0;

} // verus!
