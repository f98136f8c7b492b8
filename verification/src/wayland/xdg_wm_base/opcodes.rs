//! Request opcodes of `xdg_wm_base`.
use vstd::prelude::*;

verus! {

pub const DESTROY: u16 = 0;
pub const GET_XDG_SURFACE: u16 = 2;
pub const PONG: u16 = 3;

} // verus!
