//! Requests of `wl_surface`.
use crate::bytes::{ne_i32_bytes, ne_u32_bytes, push_ne_i32, push_ne_u32};
use crate::wayland::codec::zeros;
use crate::wayland::comm::{queued, WaylandComm};
use vstd::prelude::*;

pub mod opcodes;

verus! {

/// The arguments of `wl_surface.attach` for this buffer at offset zero.
pub open spec fn attach_args(buf_id: u32) -> Seq<u8> {
    ne_u32_bytes(buf_id) + zeros(8)
}

/// The arguments of `wl_surface.damage_buffer`.
pub open spec fn damage_args(x: i32, y: i32, width: i32, height: i32) -> Seq<u8> {
    ne_i32_bytes(x) + ne_i32_bytes(y) + ne_i32_bytes(width) + ne_i32_bytes(height)
}

pub trait WlSurface: WaylandComm {
    /// Queues `wl_surface.destroy`.
    fn wl_surface_destroy(&mut self, wl_surface_id: u32)
        ensures
            queued(*old(self), *final(self), wl_surface_id, opcodes::DESTROY, Seq::<u8>::empty()),
    {
        let args: [u8; 0] = [];
        self.send_req(wl_surface_id, opcodes::DESTROY, &args);
        assert(args@ =~= Seq::<u8>::empty());
    }

    /// Queues `wl_surface.attach` of the buffer, at offset zero as version 5 and later require.
    fn wl_surface_attach(&mut self, wl_surface_id: u32, buf_id: u32)
        ensures
            queued(*old(self), *final(self), wl_surface_id, opcodes::ATTACH, attach_args(buf_id)),
    {
        let mut args: Vec<u8> = Vec::new();
        push_ne_u32(&mut args, buf_id);
        let mut i: usize = 0;
        while i < 8
            invariant
                i <= 8,
                args@ == ne_u32_bytes(buf_id) + zeros(i as int),
            decreases 8 - i,
        {
            args.push(0u8);
            i = i + 1;
            assert(args@ =~= ne_u32_bytes(buf_id) + zeros(i as int));
        }
        self.send_req(wl_surface_id, opcodes::ATTACH, args.as_slice());
    }

    /// Queues `wl_surface.commit`.
    fn wl_surface_commit(&mut self, wl_surface_id: u32)
        ensures
            queued(*old(self), *final(self), wl_surface_id, opcodes::COMMIT, Seq::<u8>::empty()),
    {
        let args: [u8; 0] = [];
        self.send_req(wl_surface_id, opcodes::COMMIT, &args);
        assert(args@ =~= Seq::<u8>::empty());
    }

    /// Queues `wl_surface.damage_buffer` for the given rectangle in buffer coordinates.
    fn wl_surface_damage_buffer(
        &mut self,
        wl_surface_id: u32,
        x: i32,
        y: i32,
        width: i32,
        height: i32,
    )
        ensures
            queued(
                *old(self),
                *final(self),
                wl_surface_id,
                opcodes::DAMAGE_BUFFER,
                damage_args(x, y, width, height),
            ),
    {
        let mut args: Vec<u8> = Vec::new();
        push_ne_i32(&mut args, x);
        push_ne_i32(&mut args, y);
        push_ne_i32(&mut args, width);
        push_ne_i32(&mut args, height);
        assert(args@ =~= damage_args(x, y, width, height));
        self.send_req(wl_surface_id, opcodes::DAMAGE_BUFFER, args.as_slice());
    }
}

impl<T: WaylandComm> WlSurface for T {}

} // verus!
