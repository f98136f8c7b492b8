//! Event opcodes of `wl_buffer`.
use vstd::prelude::*;

verus! {

pub const RELEASE: u16 = 0;

} // verus!
