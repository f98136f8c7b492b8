//! Event opcodes of `wl_registry`.
use vstd::prelude::*;

verus! {

pub const GLOBAL: u16 = 0;

} // verus!
