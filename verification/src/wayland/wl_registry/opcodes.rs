//! Request opcodes of `wl_registry`.
use vstd::prelude::*;

verus! {

pub const BIND: u16 = 0;

} // verus!
