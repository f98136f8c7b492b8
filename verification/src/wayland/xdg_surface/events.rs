//! Event opcodes of `xdg_surface`.
use vstd::prelude::*;

verus! {

pub const CONFIGURE: u16 = 0;

} // verus!
