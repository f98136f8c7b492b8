//! Request opcodes of `xdg_toplevel`.
use vstd::prelude::*;

verus! {

pub const DESTROY: u16 = 0;

} // verus!
