//! The Wayland wire format: argument codecs, message framing, and the request side of the
//! connection.
pub mod codec;
pub mod reader;

pub use codec::{
    check_wl_array, check_wl_string, parse_wl_header, read_wl_array, read_wl_string, read_wl_u16,
    read_wl_u32, write_wl_string, WaylandHeader, WL_HEADER_SIZE,
};
pub use reader::MsgBufReader;
pub mod comm;

pub use comm::{OutMessage, WaylandComm, WaylandConnection, MSG_BUF_SIZE};
pub mod wl_buffer;
pub mod wl_compositor;
pub mod wl_display;
pub mod wl_registry;
pub mod wl_shm;
pub mod wl_shm_pool;
pub mod wl_surface;
pub mod xdg_surface;
pub mod xdg_toplevel;
pub mod xdg_wm_base;

pub use wl_registry::InterfaceInfo;
