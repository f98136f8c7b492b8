//! Request opcodes of `wl_shm`.
use vstd::prelude::*;

verus! {

pub const CREATE_POOL: u16 = 0;
pub const RELEASE: u16 = 1;

} // verus!
