//! Requests and events of `wl_shm`.
use crate::bytes::{ne_u32_bytes, push_ne_u32};
use crate::wayland::comm::{queued, queued_with_new_id, WaylandComm};
use vstd::prelude::*;

pub mod events;
pub mod opcodes;

verus! {

/// The pixel format code of 32-bit ARGB (`argb8888`).
pub const FORMAT_ARGB888: u32 = 0;

pub trait WlShm: WaylandComm {
    /// Queues `wl_shm.release`.
    fn wl_shm_release(&mut self, wl_shm_id: u32)
        ensures
            queued(*old(self), *final(self), wl_shm_id, opcodes::RELEASE, Seq::<u8>::empty()),
    {
        let args: [u8; 0] = [];
        self.send_req(wl_shm_id, opcodes::RELEASE, &args);
        assert(args@ =~= Seq::<u8>::empty());
    }

    /// Queues `wl_shm.create_pool` for a pool of `size` bytes in the memory behind `raw_fd`,
    /// which travels along the request, and returns the pool's id.
    fn wl_shm_create_pool(&mut self, wl_shm_id: u32, size: u32, raw_fd: i32) -> (new_id: u32)
        requires
            old(self).last_id() < u32::MAX,
        ensures
            queued_with_new_id(
                *old(self),
                *final(self),
                wl_shm_id,
                opcodes::CREATE_POOL,
                ne_u32_bytes(new_id) + ne_u32_bytes(size),
                Some(raw_fd),
                new_id,
            ),
    {
        let new_id = self.get_new_id();
        let mut args: Vec<u8> = Vec::new();
        push_ne_u32(&mut args, new_id);
        push_ne_u32(&mut args, size);
        assert(args@ =~= ne_u32_bytes(new_id) + ne_u32_bytes(size));
        self.send_req_with_fd(wl_shm_id, opcodes::CREATE_POOL, args.as_slice(), raw_fd);
        new_id
    }
}

impl<T: WaylandComm> WlShm for T {}

} // verus!
