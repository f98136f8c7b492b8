//! Event opcodes of `xdg_toplevel`.
use vstd::prelude::*;

verus! {

pub const CONFIGURE: u16 = 0;
pub const CLOSE: u16 = 1;
pub const WM_CAPABILITIES: u16 = 3;

} // verus!
