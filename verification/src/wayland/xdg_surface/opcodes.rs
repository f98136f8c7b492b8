//! Request opcodes of `xdg_surface`.
use vstd::prelude::*;

verus! {

pub const DESTROY: u16 = 0;
pub const ACK_CONFIGURE: u16 = 4;
pub const GET_TOPLEVEL: u16 = 1;

} // verus!
