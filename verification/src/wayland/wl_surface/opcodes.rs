//! Request opcodes of `wl_surface`.
use vstd::prelude::*;

verus! {

pub const DESTROY: u16 = 0;
pub const ATTACH: u16 = 1;
pub const COMMIT: u16 = 6;
pub const DAMAGE_BUFFER: u16 = 9;

} // verus!
