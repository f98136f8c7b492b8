//! Event opcodes of `xdg_wm_base`.
use vstd::prelude::*;

verus! {

pub const PING: u16 = 0;

} // verus!
