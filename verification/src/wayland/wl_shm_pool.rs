//! Requests of `wl_shm_pool`.
use crate::bytes::{ne_u32_bytes, push_ne_u32};
use crate::wayland::comm::{queued, queued_with_new_id, WaylandComm};
use vstd::prelude::*;

pub mod opcodes;

verus! {

/// The arguments of `wl_shm_pool.create_buffer`.
pub open spec fn create_buffer_args(
    new_id: u32,
    offset: u32,
    width: u32,
    height: u32,
    stride: u32,
    format: u32,
) -> Seq<u8> {
    ne_u32_bytes(new_id) + ne_u32_bytes(offset) + ne_u32_bytes(width) + ne_u32_bytes(height)
        + ne_u32_bytes(stride) + ne_u32_bytes(format)
}

pub trait WlShmPool: WaylandComm {
    /// Queues `wl_shm_pool.destroy`.
    fn wl_shm_pool_destroy(&mut self, wl_shm_pool_id: u32)
        ensures
            queued(*old(self), *final(self), wl_shm_pool_id, opcodes::DESTROY, Seq::<u8>::empty()),
    {
        let args: [u8; 0] = [];
        self.send_req(wl_shm_pool_id, opcodes::DESTROY, &args);
        assert(args@ =~= Seq::<u8>::empty());
    }

    /// Queues `wl_shm_pool.create_buffer` for a buffer at `offset` in the pool and returns the
    /// buffer's id.
    fn wl_shm_pool_create_buffer(
        &mut self,
        wl_shm_pool_id: u32,
        offset: u32,
        width: u32,
        height: u32,
        stride: u32,
        format: u32,
    ) -> (new_id: u32)
        requires
            old(self).last_id() < u32::MAX,
        ensures
            queued_with_new_id(
                *old(self),
                *final(self),
                wl_shm_pool_id,
                opcodes::CREATE_BUFFER,
                create_buffer_args(new_id, offset, width, height, stride, format),
                None,
                new_id,
            ),
    {
        let new_id = self.get_new_id();
        let mut args: Vec<u8> = Vec::new();
        push_ne_u32(&mut args, new_id);
        push_ne_u32(&mut args, offset);
        push_ne_u32(&mut args, width);
        push_ne_u32(&mut args, height);
        push_ne_u32(&mut args, stride);
        push_ne_u32(&mut args, format);
        assert(args@ =~= create_buffer_args(new_id, offset, width, height, stride, format));
        self.send_req(wl_shm_pool_id, opcodes::CREATE_BUFFER, args.as_slice());
        new_id
    }

    /// Queues `wl_shm_pool.resize`, telling the compositor that the pool now has `size` bytes.
    fn wl_shm_pool_resize(&mut self, wl_shm_pool_id: u32, size: u32)
        ensures
            queued(*old(self), *final(self), wl_shm_pool_id, opcodes::RESIZE, ne_u32_bytes(size)),
    {
        let mut args: Vec<u8> = Vec::new();
        push_ne_u32(&mut args, size);
        assert(args@ =~= ne_u32_bytes(size));
        self.send_req(wl_shm_pool_id, opcodes::RESIZE, args.as_slice());
    }
}

impl<T: WaylandComm> WlShmPool for T {}

} // verus!
