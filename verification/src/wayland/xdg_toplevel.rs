//! Requests and events of `xdg_toplevel`.
use crate::wayland::comm::{queued, WaylandComm};
use vstd::prelude::*;

pub mod events;
pub mod opcodes;

verus! {

/// The window-manager capabilities a compositor can announce.
#[allow(non_camel_case_types)]
#[derive(Debug, Clone, Copy, PartialEq, Eq)]
pub enum WM_CAPABILITIES {
    WINDOW_MENU,
    MAXIMIZE,
    FULLSCREEN,
    MINIMIZE,
}

/// A capability code that the protocol does not define; `message` gives the text that
/// reports it.
#[derive(Debug, Clone, Copy, PartialEq, Eq)]
pub struct InvalidCapability(pub u32);

/// The capability with this code, if the protocol defines one.
pub open spec fn capability_of(value: u32) -> Option<WM_CAPABILITIES> {
    if value == 1 {
        Some(WM_CAPABILITIES::WINDOW_MENU)
    } else if value == 2 {
        Some(WM_CAPABILITIES::MAXIMIZE)
    } else if value == 3 {
        Some(WM_CAPABILITIES::FULLSCREEN)
    } else if value == 4 {
        Some(WM_CAPABILITIES::MINIMIZE)
    } else {
        None
    }
}

impl WM_CAPABILITIES {
    /// The protocol code of the capability.
    pub fn code(&self) -> (v: u32)
        ensures
            capability_of(v) == Some(*self),
    {
        match self {
            WM_CAPABILITIES::WINDOW_MENU => 1,
            WM_CAPABILITIES::MAXIMIZE => 2,
            WM_CAPABILITIES::FULLSCREEN => 3,
            WM_CAPABILITIES::MINIMIZE => 4,
        }
    }

}

/// The character of a decimal digit.
pub open spec fn digit_char(d: int) -> char {
    (48 + d) as char
}

/// The decimal digits of `v`, most significant first, without leading zeros.
pub open spec fn decimal_chars(v: nat) -> Seq<char>
    decreases v,
{
    if v < 10 {
        seq![digit_char(v as int)]
    } else {
        decimal_chars(v / 10).push(digit_char((v % 10) as int))
    }
}

/// The text that reports the capability code `value` as invalid: `Invalid capability `
/// followed by the code in decimal.
pub open spec fn invalid_capability_text(value: u32) -> Seq<char> {
    seq!['I', 'n', 'v', 'a', 'l', 'i', 'd', ' ', 'c', 'a', 'p', 'a', 'b', 'i', 'l', 'i', 't', 'y', ' ']
        + decimal_chars(value as nat)
}

/// The one-character text of the decimal digit `d`.
fn digit_str(d: u32) -> (s: &'static str)
    requires
        d < 10,
    ensures
        s@ == seq![digit_char(d as int)],
{
    proof {
        reveal_strlit("0");
        reveal_strlit("1");
        reveal_strlit("2");
        reveal_strlit("3");
        reveal_strlit("4");
        reveal_strlit("5");
        reveal_strlit("6");
        reveal_strlit("7");
        reveal_strlit("8");
        reveal_strlit("9");
    }
    let s = match d {
        0 => "0",
        1 => "1",
        2 => "2",
        3 => "3",
        4 => "4",
        5 => "5",
        6 => "6",
        7 => "7",
        8 => "8",
        _ => "9",
    };
    assert(s@ =~= seq![digit_char(d as int)]);
    s
}

/// Appends the decimal digits of `v` to `s`.
fn push_decimal(s: &mut String, v: u32)
    ensures
        final(s)@ == old(s)@ + decimal_chars(v as nat),
    decreases v,
{
    if v >= 10 {
        push_decimal(s, v / 10);
    }
    s.append(digit_str(v % 10));
    proof {
        if v >= 10 {
            assert(decimal_chars(v as nat) == decimal_chars((v / 10) as nat).push(
                digit_char((v % 10) as int),
            ));
        }
    }
    assert(s@ =~= old(s)@ + decimal_chars(v as nat));
}

impl InvalidCapability {
    /// The text that reports the code as invalid, such as `Invalid capability 0`.
    pub fn message(&self) -> (s: String)
        ensures
            s@ == invalid_capability_text(self.0),
    {
        let prefix = "Invalid capability ";
        proof {
            reveal_strlit("Invalid capability ");
        }
        let mut s = String::from_str(prefix);
        assert(s@ =~= seq![
            'I', 'n', 'v', 'a', 'l', 'i', 'd', ' ', 'c', 'a', 'p', 'a', 'b', 'i', 'l', 'i', 't', 'y', ' '
        ]);
        push_decimal(&mut s, self.0);
        s
    }
}

impl TryFrom<u32> for WM_CAPABILITIES {
    type Error = InvalidCapability;

    /// The capability with the code `value`, or the code back as an error when the protocol
    /// defines none.
    fn try_from(value: u32) -> (r: Result<Self, InvalidCapability>) {
        match value {
            1 => Ok(Self::WINDOW_MENU),
            2 => Ok(Self::MAXIMIZE),
            3 => Ok(Self::FULLSCREEN),
            4 => Ok(Self::MINIMIZE),
            _ => Err(InvalidCapability(value)),
        }
    }
}

impl vstd::std_specs::convert::TryFromSpecImpl<u32> for WM_CAPABILITIES {
    open spec fn obeys_try_from_spec() -> bool {
        true
    }

    open spec fn try_from_spec(value: u32) -> Result<Self, InvalidCapability> {
        match capability_of(value) {
            Some(c) => Ok(c),
            None => Err(InvalidCapability(value)),
        }
    }
}

pub trait XdgToplevel: WaylandComm {
    /// Queues `xdg_toplevel.destroy`.
    fn xdg_toplevel_destroy(&mut self, xdg_toplevel_id: u32)
        ensures
            queued(*old(self), *final(self), xdg_toplevel_id, opcodes::DESTROY, Seq::<u8>::empty()),
    {
        let args: [u8; 0] = [];
        self.send_req(xdg_toplevel_id, opcodes::DESTROY, &args);
        assert(args@ =~= Seq::<u8>::empty());
    }
}

impl<T: WaylandComm> XdgToplevel for T {}

} // verus!
