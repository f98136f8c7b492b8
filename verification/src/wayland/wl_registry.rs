//! Requests and events of `wl_registry`.
use crate::bytes::{ne_u32_bytes, roundup4, u32_to_ne_bytes};
use crate::wayland::codec::{
    check_wl_string, no_nul, read_wl_string, read_wl_u32, spec_u32_at, wl_string_bytes,
    wl_string_ok, wl_string_size, write_wl_string,
};
use crate::wayland::comm::{queued_with_new_id, WaylandComm};
use vstd::prelude::*;

pub mod events;
pub mod opcodes;

verus! {

/// A global object announced by the compositor.
#[derive(Debug, Clone)]
pub struct InterfaceInfo {
    pub unique_name: u32,
    /// The interface name, without its terminating nul.
    pub name: Vec<u8>,
    pub version: u32,
}

impl View for InterfaceInfo {
    type V = (u32, Seq<u8>, u32);

    open spec fn view(&self) -> (u32, Seq<u8>, u32) {
        (self.unique_name, self.name@, self.version)
    }
}

/// The arguments of a `wl_registry.global` event are well formed: a `u32`, a string and a
/// `u32`, all inside the arguments.
pub open spec fn registry_global_ok(args: Seq<u8>) -> bool {
    &&& args.len() >= 4
    &&& wl_string_ok(args.subrange(4, args.len() as int))
    &&& 4 + roundup4(wl_string_size(args.subrange(4, args.len() as int))) + 4 + 4 <= args.len()
}

/// The interface name in the arguments of a `wl_registry.global` event.
pub open spec fn registry_global_name(args: Seq<u8>) -> Seq<u8> {
    args.subrange(8, 8 + wl_string_size(args.subrange(4, args.len() as int)) - 1)
}

/// The version in the arguments of a `wl_registry.global` event.
pub open spec fn registry_global_version(args: Seq<u8>) -> u32 {
    spec_u32_at(args, 4 + roundup4(wl_string_size(args.subrange(4, args.len() as int))) + 4)
}

/// The arguments of `wl_registry.bind` for this interface and new id.
pub open spec fn bind_args(interface: (u32, Seq<u8>, u32), new_id: u32) -> Seq<u8> {
    ne_u32_bytes(interface.0) + wl_string_bytes(interface.1) + ne_u32_bytes(interface.2)
        + ne_u32_bytes(new_id)
}

/// The interface's name can be sent: it holds no nul and the bind request fits a message.
pub open spec fn bindable(interface: InterfaceInfo) -> bool {
    name_bindable(interface.name@)
}

/// A name can be bound: it holds no nul and the bind request for it fits a message.
pub open spec fn name_bindable(name: Seq<u8>) -> bool {
    &&& no_nul(name)
    &&& 24 + roundup4(name.len() + 1int) <= u16::MAX
}

impl InterfaceInfo {
    /// Decodes the arguments of a `wl_registry.global` event.
    pub fn from_registry_global_event(args: &[u8]) -> (r: Self)
        requires
            registry_global_ok(args@),
        ensures
            r.unique_name == spec_u32_at(args@, 0),
            r.name@ == registry_global_name(args@),
            r.version == registry_global_version(args@),
    {
        let (unique_name, rest) = read_wl_u32(args);
        let (_, padded, name, rest2) = read_wl_string(rest);
        proof {
            assert(rest2@.subrange(0, 4) =~= args@.subrange(4 + padded, 4 + padded + 4));
        }
        let (version, _args) = read_wl_u32(rest2);
        let mut owned: Vec<u8> = Vec::new();
        let mut i: usize = 0;
        while i < name.len()
            invariant
                i <= name@.len(),
                owned@ == name@.subrange(0, i as int),
            decreases name@.len() - i,
        {
            owned.push(name[i]);
            i = i + 1;
            assert(owned@ =~= name@.subrange(0, i as int));
        }
        assert(name@.subrange(0, name@.len() as int) =~= name@);
        assert(name@ =~= registry_global_name(args@));
        Self { unique_name, name: owned, version }
    }

    /// Tells whether `args` are well-formed arguments of a `wl_registry.global` event.
    pub fn check_registry_global(args: &[u8]) -> (ok: bool)
        ensures
            ok == registry_global_ok(args@),
    {
        if args.len() < 4 {
            return false;
        }
        let rest = &args[4..args.len()];
        if !check_wl_string(rest) {
            return false;
        }
        let (_, padded, _, _) = read_wl_string(rest);
        padded <= rest.len() - 4
    }
}

pub trait WlRegistry: WaylandComm {
    /// Sends the `wl_registry.bind` request
    fn wl_registry_bind(&mut self, wl_registry_id: u32, interface: &InterfaceInfo) -> (new_id: u32)
        requires
            old(self).last_id() < u32::MAX,
            bindable(*interface),
        ensures
            queued_with_new_id(
                *old(self),
                *final(self),
                wl_registry_id,
                opcodes::BIND,
                bind_args(interface@, new_id),
                None,
                new_id,
            ),
    {
        let name_bytes = u32_to_ne_bytes(interface.unique_name);
        let mut args_buf: Vec<u8> = Vec::new();
        args_buf.push(name_bytes[0]);
        args_buf.push(name_bytes[1]);
        args_buf.push(name_bytes[2]);
        args_buf.push(name_bytes[3]);
        write_wl_string(interface.name.as_slice(), &mut args_buf);
        let version_bytes = u32_to_ne_bytes(interface.version);
        args_buf.push(version_bytes[0]);
        args_buf.push(version_bytes[1]);
        args_buf.push(version_bytes[2]);
        args_buf.push(version_bytes[3]);
        let new_id = self.get_new_id();
        let id_bytes = u32_to_ne_bytes(new_id);
        args_buf.push(id_bytes[0]);
        args_buf.push(id_bytes[1]);
        args_buf.push(id_bytes[2]);
        args_buf.push(id_bytes[3]);
        assert(args_buf@ =~= bind_args(interface@, new_id));
        self.send_req(wl_registry_id, opcodes::BIND, args_buf.as_slice());
        new_id
    }
}

impl<T: WaylandComm> WlRegistry for T {}

} // verus!

verus! {

/// The name announced by a well-formed `wl_registry.global` event of at most a receive
/// buffer's size can be bound.
pub proof fn lemma_global_name_bindable(args: Seq<u8>)
    requires
        registry_global_ok(args),
        args.len() <= 4096,
    ensures
        name_bindable(registry_global_name(args)),
{
    let sub = args.subrange(4, args.len() as int);
    let n = wl_string_size(sub);
    assert(registry_global_name(args) =~= sub.subrange(4, 4 + n - 1));
    crate::bytes::lemma_roundup4(n);
}

} // verus!
