//! The client: its double buffer, and the state machine that reacts to events and decides
//! the next requests.
use crate::image::{image_loadable, load_image, loaded_pixels, png_dims, ImageError};
use crate::utils::{double_buffer_fits, double_buffer_size, ShmGeometry};
use crate::wayland::comm::{WaylandComm, WaylandConnection, MSG_BUF_SIZE};
use crate::wayland::codec::{
    check_wl_array, message_bytes, read_wl_array, read_wl_u32, spec_u32_at, wl_array_elems,
    wl_array_ok, WaylandHeader,
};
use crate::wayland::reader::{
    complete_len, complete_messages, ends_in_malformed_header, has_complete_message,
    has_malformed_header, incomplete_tail, lemma_complete_len, lemma_complete_none,
    lemma_complete_unfold, lemma_tail_incomplete, MsgBufReader,
};
use crate::wayland::wl_display::{display_error_msg, display_error_ok};
use crate::wayland::xdg_toplevel::{capability_of, WM_CAPABILITIES};
use crate::bytes::ne_u32_bytes;
use crate::wayland::wl_shm_pool::create_buffer_args;
use crate::wayland::{
    wl_buffer, wl_compositor, wl_display, wl_registry, wl_shm, wl_shm_pool, xdg_surface,
    xdg_toplevel, xdg_wm_base,
};
use crate::wayland::wl_display::WlDisplayError;
use crate::wayland::wl_surface;
use crate::wayland::wl_compositor::WlCompositor;
use crate::wayland::wl_buffer::WlBuffer;
use crate::wayland::wl_display::WlDisplay;
use crate::wayland::wl_registry::WlRegistry;
use crate::wayland::wl_shm::WlShm;
use crate::wayland::wl_shm_pool::WlShmPool;
use crate::wayland::xdg_toplevel::XdgToplevel;
use crate::wayland::wl_surface::{attach_args, damage_args, WlSurface};
use crate::wayland::xdg_surface::XdgSurface;
use crate::wayland::xdg_wm_base::XdgWmBase;
use crate::wayland::wl_registry::{
    bind_args, lemma_global_name_bindable, name_bindable, registry_global_name, registry_global_ok, registry_global_version,
    InterfaceInfo,
};
use vstd::prelude::*;

verus! {

/// Two `wl_buffer`s of one surface, living in the two halves of one shared memory pool.
#[derive(Debug, Clone, Copy)]
pub struct SurfaceBuffers {
    /// Width of a single buffer in pixels
    pub width: u32,
    /// Height of a single buffer in pixels
    pub height: u32,
    pub buf_1_id: u32,
    /// Whether the first buffer has been released and ready for drawing
    pub buf_1_free: bool,
    pub buf_2_id: u32,
    /// Whether the second buffer has been released and ready for drawing
    pub buf_2_free: bool,
    /// Whether the first buffer is the front buffer (else, it is the back buffer)
    pub first_buf_front: bool,
    pub shm: ShmGeometry,
}

impl SurfaceBuffers {
    /// The buffer to draw into is released.
    pub open spec fn back_free(self) -> bool {
        if self.first_buf_front {
            self.buf_2_free
        } else {
            self.buf_1_free
        }
    }

    /// The id of the buffer to draw into.
    pub open spec fn back_id(self) -> u32 {
        if self.first_buf_front {
            self.buf_2_id
        } else {
            self.buf_1_id
        }
    }

    /// The pixel memory holds both halves: its length is the pool's size.
    pub open spec fn half(self) -> int {
        self.shm.size as int / 2
    }

    /// Buffers for a surface of `width` by `height` pixels, both released, the first in front.
    pub fn new(width: u32, height: u32) -> (s: Self)
        requires
            double_buffer_fits(width, height),
        ensures
            s == (SurfaceBuffers {
                width,
                height,
                buf_1_id: 0,
                buf_1_free: true,
                buf_2_id: 0,
                buf_2_free: true,
                first_buf_front: true,
                shm: ShmGeometry {
                    size: double_buffer_size(width, height) as usize,
                    height,
                    width,
                    stride: (4 * width) as u32,
                },
            }),
    {
        SurfaceBuffers {
            width,
            height,
            buf_1_id: 0,
            buf_1_free: true,
            buf_2_id: 0,
            buf_2_free: true,
            first_buf_front: true,
            shm: ShmGeometry::new(width, height),
        }
    }

    /// Resizes the two buffers
    /// **NOTE**: Requires the associated `wl_buffer`s to be released first (and ideally destroyed).
    /// **NOTE**: Immediately after resizing, the `wl_shm_pool` must be resized and new `wl_buffer`s
    /// must be created from the pool.
    ///
    /// Returns the old and the new size of the buffer in bytes. If the buffer is not resized, they
    /// are equal
    pub fn resize(&mut self, width: u32, height: u32) -> (r: (usize, usize))
        requires
            old(self).buf_1_free,
            old(self).buf_2_free,
            double_buffer_fits(width, height),
        ensures
            r.0 == old(self).shm.size,
            r.1 == final(self).shm.size,
            final(self).shm.size == if double_buffer_size(width, height) > old(self).shm.size {
                double_buffer_size(width, height)
            } else {
                old(self).shm.size as int
            },
            final(self).shm.width == width,
            final(self).shm.height == height,
            final(self).shm.stride == 4 * width,
            final(self).width == width,
            final(self).height == height,
            final(self).first_buf_front,
            final(self).buf_1_id == old(self).buf_1_id,
            final(self).buf_2_id == old(self).buf_2_id,
            final(self).buf_1_free,
            final(self).buf_2_free,
    {
        let size_change = self.shm.resize(width, height);
        self.width = width;
        self.height = height;
        self.first_buf_front = true;
        size_change
    }

    /// Sets the IDs for the associated `wl_buffer`s
    pub fn set_ids(&mut self, buf_1_id: u32, buf_2_id: u32)
        ensures
            *final(self) == (SurfaceBuffers { buf_1_id, buf_2_id, ..*old(self) }),
    {
        self.buf_1_id = buf_1_id;
        self.buf_2_id = buf_2_id;
    }

    /// Returns mutable slices to both the buffers in the pixel memory of the pool.
    fn get_pixels_mut<'b>(&self, pixels: &'b mut [u8]) -> (r: (&'b mut [u8], &'b mut [u8]))
        requires
            old(pixels)@.len() == self.shm.size,
        ensures
            r.0@ == old(pixels)@.subrange(0, self.half()),
            r.1@ == old(pixels)@.subrange(self.half(), old(pixels)@.len() as int),
            final(pixels)@ == final(r.0)@ + final(r.1)@,
    {
        let end = self.shm.size / 2;
        pixels.split_at_mut(end)
    }

    /// Returns a mutable reference to the draw buffer (back buffer) in the pixel memory of the
    /// pool.
    pub fn get_draw_buffer_mut<'b>(&self, pixels: &'b mut [u8]) -> (buf: &'b mut [u8])
        requires
            old(pixels)@.len() == self.shm.size,
            self.back_free(),
        ensures
            self.first_buf_front ==> {
                &&& buf@ == old(pixels)@.subrange(self.half(), old(pixels)@.len() as int)
                &&& final(pixels)@ == old(pixels)@.subrange(0, self.half()) + final(buf)@
            },
            !self.first_buf_front ==> {
                &&& buf@ == old(pixels)@.subrange(0, self.half())
                &&& final(pixels)@ == final(buf)@ + old(pixels)@.subrange(
                    self.half(),
                    old(pixels)@.len() as int,
                )
            },
    {
        if self.first_buf_front {
            let (front, back) = self.get_pixels_mut(pixels);
            back
        } else {
            let (back, front) = self.get_pixels_mut(pixels);
            back
        }
    }

    /// Brings the back buffer to the front for and returns it `wl_buffer` id for attaching to the surface
    pub fn commit_draw(&mut self) -> (id: u32)
        ensures
            id == old(self).back_id(),
            *final(self) == committed(*old(self)),
    {
        self.switch_bufs()
    }

    /// Switches the front and back buffers and returns the id to the front buffer
    fn switch_bufs(&mut self) -> (id: u32)
        ensures
            id == old(self).back_id(),
            *final(self) == committed(*old(self)),
    {
        self.first_buf_front = !self.first_buf_front;
        if self.first_buf_front {
            self.buf_1_free = false;
            self.buf_1_id
        } else {
            self.buf_2_free = false;
            self.buf_2_id
        }
    }

    /// Marks the buffer with this id as released by the compositor; an id that is not the
    /// first buffer's counts as the second's.
    pub fn release_buf(&mut self, buf_id: u32)
        ensures
            *final(self) == released(*old(self), buf_id),
    {
        if buf_id == self.buf_1_id {
            self.buf_1_free = true;
        } else {
            self.buf_2_free = true;
        }
    }
}

/// The buffers after the compositor released the one with id `buf_id`.
pub open spec fn released(b: SurfaceBuffers, buf_id: u32) -> SurfaceBuffers {
    if buf_id == b.buf_1_id {
        SurfaceBuffers { buf_1_free: true, ..b }
    } else {
        SurfaceBuffers { buf_2_free: true, ..b }
    }
}

} // verus!

verus! {

/// The successive stages of a client's life.
#[derive(Debug, Clone, Copy, PartialEq, Eq)]
pub enum ClientStatus {
    Connected,
    GotRegistry,
    ReadingGlobalInterfaces,
    BindingInterfaces,
    AwaitingFormats,
    ReadingFormats,
    CreatingSurface,
    AwaitingInitialConfigure,
    GotInitialConfigure,
    CreatingBuffers,
    Drawing,
    /// Inner field is the `stage` of the resizing
    Resizing(u32),
    Idle,
    Closing,
    Exiting,
}

/// The ids of the objects the client created or bound; zero for those it has not.
#[derive(Debug, Clone, Copy, PartialEq, Eq)]
pub struct InterfaceIds {
    pub wl_registry: u32,
    pub wl_shm: u32,
    pub wl_shm_pool: u32,
    pub wl_compositor: u32,
    pub wl_surface: u32,
    pub wl_buffer_1: u32,
    pub wl_buffer_2: u32,
    pub xdg_wm_base: u32,
    pub xdg_surface: u32,
    pub xdg_toplevel: u32,
}

impl Default for InterfaceIds {
    fn default() -> (ids: Self)
        ensures
            ids == (InterfaceIds {
                wl_registry: 0,
                wl_shm: 0,
                wl_shm_pool: 0,
                wl_compositor: 0,
                wl_surface: 0,
                wl_buffer_1: 0,
                wl_buffer_2: 0,
                xdg_wm_base: 0,
                xdg_surface: 0,
                xdg_toplevel: 0,
            }),
    {
        InterfaceIds {
            wl_registry: 0,
            wl_shm: 0,
            wl_shm_pool: 0,
            wl_compositor: 0,
            wl_surface: 0,
            wl_buffer_1: 0,
            wl_buffer_2: 0,
            xdg_wm_base: 0,
            xdg_surface: 0,
            xdg_toplevel: 0,
        }
    }
}

/// Why the client cannot go on.
#[derive(Debug, Clone, Copy, PartialEq, Eq)]
pub enum ClientFailure {
    /// There are no surface buffers to draw into.
    DrawBufferMissing,
    /// The buffer to draw into, with this id, has not been released by the compositor.
    BufferNotReleased(u32),
    /// The window is narrower or lower than the image.
    WindowSmallerThanImage,
    /// The image rows at the new offsets reach past the end of the draw buffer.
    ImageOutsideBuffer,
    /// The buffers cannot be resized before the compositor released both.
    BuffersBusy,
    /// The shared memory for a window of this size cannot be described.
    ShmTooLarge,
    /// A size computation overflows.
    Overflow,
    /// Object ids have run out.
    IdsExhausted,
    /// An event's arguments are not well formed.
    MalformedEvent,
    /// A received header announces a size smaller than a header.
    MalformedHeader,
    /// The continuation was called in a state that does not expect it.
    OutOfSequence,
}

} // verus!

verus! {

/// Where the client is in its life, and what it still has to answer.
#[derive(Debug)]
pub struct ClientState {
    pub status: ClientStatus,
    pub pending_ping: Option<u32>,
    pub pending_configure: Option<u32>,
    pub pending_errors: Vec<WlDisplayError>,
}

/// A client that shows one image in a window.
pub struct WaylandClient {
    pub conn: WaylandConnection,
    /// The image, as premultiplied ARGB8888 pixels of `draw_width` by `draw_height`.
    pub img_argb8: Vec<u8>,
    pub state: ClientState,
    /// The globals the compositor announced, at most one per interface name.
    pub advertised_interfaces: Vec<InterfaceInfo>,
    pub interfaces: InterfaceIds,
    pub window_width: u32,
    pub window_height: u32,
    pub draw_height: usize,
    pub draw_width: usize,
    /// x offset in the window to draw at
    pub x_offset: usize,
    /// y offset in the window to draw at
    pub y_offset: usize,
    pub surface_buffers: Option<SurfaceBuffers>,
}

/// The mathematical state of a client.
pub struct ClientView {
    pub status: ClientStatus,
    pub pending_ping: Option<u32>,
    pub pending_configure: Option<u32>,
    pub errors: Seq<(u32, u32, Seq<u8>)>,
    pub advertised: Seq<(u32, Seq<u8>, u32)>,
    pub interfaces: InterfaceIds,
    pub window_width: u32,
    pub window_height: u32,
    pub draw_width: usize,
    pub draw_height: usize,
    pub x_offset: usize,
    pub y_offset: usize,
    pub buffers: Option<SurfaceBuffers>,
    pub image: Seq<u8>,
    pub sent: Seq<(Seq<u8>, Option<i32>)>,
    pub last_id: u32,
    pub received: Seq<u8>,
    pub free_space: nat,
}

impl View for WaylandClient {
    type V = ClientView;

    open spec fn view(&self) -> ClientView {
        ClientView {
            status: self.state.status,
            pending_ping: self.state.pending_ping,
            pending_configure: self.state.pending_configure,
            errors: error_views(self.state.pending_errors@),
            advertised: advertised_views(self.advertised_interfaces@),
            interfaces: self.interfaces,
            window_width: self.window_width,
            window_height: self.window_height,
            draw_width: self.draw_width,
            draw_height: self.draw_height,
            x_offset: self.x_offset,
            y_offset: self.y_offset,
            buffers: self.surface_buffers,
            image: self.img_argb8@,
            sent: self.conn.sent(),
            last_id: self.conn.last_id(),
            received: self.conn.received(),
            free_space: self.conn.free_space(),
        }
    }
}

/// The announced globals, each as its unique name, interface name and version.
pub open spec fn advertised_views(ads: Seq<InterfaceInfo>) -> Seq<(u32, Seq<u8>, u32)> {
    ads.map_values(|i: InterfaceInfo| i@)
}

/// The reported errors, each as its object id, error code and message.
pub open spec fn error_views(errs: Seq<WlDisplayError>) -> Seq<(u32, u32, Seq<u8>)> {
    errs.map_values(|e: WlDisplayError| e@)
}

/// The names of the announced globals are distinct and each can be bound.
pub open spec fn advertised_ok(ads: Seq<(u32, Seq<u8>, u32)>) -> bool {
    &&& forall|i: int| 0 <= i < ads.len() ==> name_bindable(#[trigger] ads[i].1)
    &&& forall|i: int, j: int| 0 <= i < j < ads.len() ==> ads[i].1 != ads[j].1
}

/// The client's view is consistent: the image holds four bytes per pixel of the drawn area,
/// the announced globals are distinct and bindable, and the buffers' sizes agree.
pub open spec fn view_ok(v: ClientView) -> bool {
    &&& v.image.len() == 4 * v.draw_width * v.draw_height
    &&& advertised_ok(v.advertised)
    &&& v.buffers matches Some(sb) ==> 4 * sb.width <= u32::MAX
}

impl WaylandClient {
    /// The client is consistent.
    pub open spec fn wf(&self) -> bool {
        view_ok(self@)
    }
}

} // verus!

verus! {

/// The client right after connecting, showing an image of `width` by `height` with these
/// pixels.
pub open spec fn initial_view(width: u32, height: u32, image: Seq<u8>) -> ClientView {
    ClientView {
        status: ClientStatus::Connected,
        pending_ping: None,
        pending_configure: None,
        errors: Seq::empty(),
        advertised: Seq::empty(),
        interfaces: InterfaceIds {
            wl_registry: 0,
            wl_shm: 0,
            wl_shm_pool: 0,
            wl_compositor: 0,
            wl_surface: 0,
            wl_buffer_1: 0,
            wl_buffer_2: 0,
            xdg_wm_base: 0,
            xdg_surface: 0,
            xdg_toplevel: 0,
        },
        window_width: width,
        window_height: height,
        draw_width: width as usize,
        draw_height: height as usize,
        x_offset: 0,
        y_offset: 0,
        buffers: None,
        image,
        sent: Seq::empty(),
        last_id: 1,
        received: Seq::empty(),
        free_space: MSG_BUF_SIZE as nat,
    }
}

impl WaylandClient {
    /// A client for a fresh connection, showing the PNG image `png_data` in a window of the
    /// image's size.
    pub fn new(png_data: &[u8]) -> (r: Result<Self, ImageError>)
        ensures
            match r {
                Ok(c) => {
                    &&& image_loadable(png_data@)
                    &&& c.wf()
                    &&& c@ == initial_view(
                        png_dims(png_data@).unwrap().0,
                        png_dims(png_data@).unwrap().1,
                        loaded_pixels(png_data@),
                    )
                },
                Err(ImageError::Undecodable) => png_dims(png_data@) is None || (4 * png_dims(
                    png_data@,
                ).unwrap().0 * png_dims(png_data@).unwrap().1 <= usize::MAX && !image_loadable(
                    png_data@,
                )),
                Err(ImageError::TooLarge) => png_dims(png_data@) is Some && 4 * png_dims(
                    png_data@,
                ).unwrap().0 * png_dims(png_data@).unwrap().1 > usize::MAX,
            },
    {
        let (img_width, img_height, img_buf) = match load_image(png_data) {
            Ok(loaded) => loaded,
            Err(e) => return Err(e),
        };
        let conn = WaylandConnection::new();
        let c = WaylandClient {
            conn,
            img_argb8: img_buf,
            state: ClientState {
                status: ClientStatus::Connected,
                pending_ping: None,
                pending_configure: None,
                pending_errors: Vec::new(),
            },
            interfaces: InterfaceIds::default(),
            advertised_interfaces: Vec::new(),
            window_width: img_width,
            window_height: img_height,
            draw_width: img_width as usize,
            draw_height: img_height as usize,
            x_offset: 0,
            y_offset: 0,
            surface_buffers: None,
        };
        proof {
            assert(c@.errors =~= Seq::<(u32, u32, Seq<u8>)>::empty());
            assert(c@.advertised =~= Seq::<(u32, Seq<u8>, u32)>::empty());
        }
        Ok(c)
    }
}

} // verus!

verus! {

/// A request without a descriptor, as it sits in the queue.
pub open spec fn request(object_id: u32, opcode: u16, args: Seq<u8>) -> (Seq<u8>, Option<i32>) {
    (message_bytes(object_id, opcode, args), None::<i32>)
}

/// The canvas with the first `rows` image rows copied in order: image row `r`, of `irs` bytes,
/// lands at `(r + y) * brs + col`, over whatever was there.
pub open spec fn paint_rows(
    canvas: Seq<u8>,
    image: Seq<u8>,
    irs: int,
    brs: int,
    col: int,
    y: int,
    rows: nat,
) -> Seq<u8>
    decreases rows,
{
    if rows == 0 {
        canvas
    } else {
        let prev = paint_rows(canvas, image, irs, brs, col, y, (rows - 1) as nat);
        let r = rows - 1;
        let start = (r + y) * brs + col;
        prev.subrange(0, start) + image.subrange(r * irs, r * irs + irs) + prev.subrange(
            start + irs,
            prev.len() as int,
        )
    }
}

/// The number of bytes of the buffer to draw into.
pub open spec fn back_len(sb: SurfaceBuffers) -> int {
    if sb.first_buf_front {
        sb.shm.size - sb.half()
    } else {
        sb.half()
    }
}

/// All `rows` image rows of `irs` bytes, placed from row `y` at column byte `col` in rows of
/// `brs` bytes, lie inside a buffer of `len` bytes.
pub open spec fn rows_fit(rows: int, y: int, brs: int, col: int, irs: int, len: int) -> bool {
    rows == 0 || (rows - 1 + y) * brs + col + irs <= len
}

/// The pixel memory after the back buffer is cleared and the image painted into it.
pub open spec fn painted_pixels(
    v: ClientView,
    sb: SurfaceBuffers,
    pixels: Seq<u8>,
    nx: int,
    ny: int,
) -> Seq<u8> {
    let back = paint_rows(
        Seq::new(back_len(sb) as nat, |i: int| 0u8),
        v.image,
        4 * v.draw_width,
        4 * sb.width,
        4 * nx,
        ny,
        v.draw_height as nat,
    );
    if sb.first_buf_front {
        pixels.subrange(0, sb.half()) + back
    } else {
        back + pixels.subrange(sb.half(), pixels.len() as int)
    }
}

/// What drawing does: on success, the client and the pixel memory afterwards; otherwise why
/// it cannot draw.
pub open spec fn draw_outcome(v: ClientView, pixels: Seq<u8>) -> Result<
    (ClientView, Seq<u8>),
    ClientFailure,
> {
    match v.buffers {
        None => Err(ClientFailure::DrawBufferMissing),
        Some(sb) => if 4 * v.draw_width > usize::MAX {
            Err(ClientFailure::Overflow)
        } else if !sb.back_free() {
            Err(ClientFailure::BufferNotReleased(sb.back_id()))
        } else if v.window_width < v.draw_width || v.window_height < v.draw_height {
            Err(ClientFailure::WindowSmallerThanImage)
        } else {
            let nx = (v.window_width - v.draw_width) / 2;
            let ny = (v.window_height - v.draw_height) / 2;
            if nx == v.x_offset && ny == v.y_offset {
                Ok((v, pixels))
            } else if 4 * nx > usize::MAX {
                Err(ClientFailure::Overflow)
            } else if !rows_fit(
                v.draw_height as int,
                ny,
                4 * sb.width,
                4 * nx,
                4 * v.draw_width,
                back_len(sb),
            ) {
                Err(ClientFailure::ImageOutsideBuffer)
            } else {
                let surface = v.interfaces.wl_surface;
                let sent = v.sent.push(
                    request(surface, wl_surface::opcodes::ATTACH, attach_args(sb.back_id())),
                ).push(
                    request(
                        surface,
                        wl_surface::opcodes::DAMAGE_BUFFER,
                        damage_args(
                            nx as i32,
                            ny as i32,
                            v.draw_width as i32,
                            v.draw_height as i32,
                        ),
                    ),
                ).push(request(surface, wl_surface::opcodes::COMMIT, Seq::empty()));
                Ok(
                    (
                        ClientView {
                            x_offset: nx as usize,
                            y_offset: ny as usize,
                            buffers: Some(committed(sb)),
                            sent,
                            ..v
                        },
                        painted_pixels(v, sb, pixels, nx, ny),
                    ),
                )
            }
        },
    }
}

/// Painting one more row keeps the length when the row lies inside.
proof fn lemma_paint_len(
    canvas: Seq<u8>,
    image: Seq<u8>,
    irs: int,
    brs: int,
    col: int,
    y: int,
    rows: nat,
)
    requires
        irs >= 0,
        brs >= 0,
        col >= 0,
        y >= 0,
        image.len() >= rows * irs,
        rows_fit(rows as int, y, brs, col, irs, canvas.len() as int),
    ensures
        paint_rows(canvas, image, irs, brs, col, y, rows).len() == canvas.len(),
    decreases rows,
{
    if rows > 0 {
        let r = rows - 1;
        assert((r - 1 + y) * brs <= (r + y) * brs) by (nonlinear_arith)
            requires
                brs >= 0,
        ;
        assert(r * irs + irs == rows * irs) by (nonlinear_arith)
            requires
                r == rows - 1,
        ;
        assert(r * irs >= 0) by (nonlinear_arith)
            requires
                r >= 0,
                irs >= 0,
        ;
        assert((r + y) * brs >= 0) by (nonlinear_arith)
            requires
                r >= 0,
                y >= 0,
                brs >= 0,
        ;
        assert(image.len() >= r * irs) by (nonlinear_arith)
            requires
                image.len() >= rows * irs,
                r == rows - 1,
                irs >= 0,
        ;
        lemma_paint_len(canvas, image, irs, brs, col, y, r as nat);
    }
}

/// Where painting puts the image: when the rows of the buffer are wide enough for the column
/// offset and an image row, byte `k` of image row `r` lands at byte `k` after the column
/// offset of buffer row `r + y`.
pub proof fn lemma_paint_places(
    canvas: Seq<u8>,
    image: Seq<u8>,
    irs: int,
    brs: int,
    col: int,
    y: int,
    rows: nat,
    r: int,
    k: int,
)
    requires
        irs >= 0,
        col >= 0,
        y >= 0,
        col + irs <= brs,
        image.len() >= rows * irs,
        rows_fit(rows as int, y, brs, col, irs, canvas.len() as int),
        0 <= r < rows,
        0 <= k < irs,
    ensures
        paint_rows(canvas, image, irs, brs, col, y, rows)[(r + y) * brs + col + k] == image[r
            * irs + k],
    decreases rows,
{
    let last = rows - 1;
    assert(image.len() >= last * irs) by (nonlinear_arith)
        requires
            image.len() >= rows * irs,
            last == rows - 1,
            irs >= 0,
    ;
    assert(rows_fit(last, y, brs, col, irs, canvas.len() as int)) by {
        if last > 0 {
            assert((last - 1 + y) * brs <= (rows - 1 + y) * brs) by (nonlinear_arith)
                requires
                    last == rows - 1,
                    brs >= 0,
            ;
        }
    }
    lemma_paint_len(canvas, image, irs, brs, col, y, last as nat);
    assert(r * irs + irs <= rows * irs) by (nonlinear_arith)
        requires
            r + 1 <= rows,
            irs >= 0,
    ;
    assert(r * irs >= 0) by (nonlinear_arith)
        requires
            r >= 0,
            irs >= 0,
    ;
    assert((r + y) * brs >= 0) by (nonlinear_arith)
        requires
            r >= 0,
            y >= 0,
            brs >= 0,
    ;
    let prev = paint_rows(canvas, image, irs, brs, col, y, last as nat);
    let start = (last + y) * brs + col;
    let pos = (r + y) * brs + col + k;
    assert(start + irs <= canvas.len());
    assert(last * irs + irs <= image.len()) by (nonlinear_arith)
        requires
            image.len() >= rows * irs,
            last == rows - 1,
    ;
    assert(paint_rows(canvas, image, irs, brs, col, y, rows) == prev.subrange(0, start)
        + image.subrange(last * irs, last * irs + irs) + prev.subrange(start + irs, prev.len() as int));
    if r < last {
        lemma_paint_places(canvas, image, irs, brs, col, y, last as nat, r, k);
        assert((r + y) * brs + brs <= (last + y) * brs) by (nonlinear_arith)
            requires
                r + 1 <= last,
                brs >= 0,
        ;
        assert(pos < start);
    } else {
        assert(pos == start + k);
    }
}

} // verus!

verus! {

/// Tells whether all image rows fit the buffer, with the arithmetic checked.
fn rows_fit_exec(rows: usize, y: usize, brs: usize, col: usize, irs: usize, len: usize) -> (b: bool)
    ensures
        b == rows_fit(rows as int, y as int, brs as int, col as int, irs as int, len as int),
{
    if rows == 0 {
        return true;
    }
    let off = if brs == 0 {
        0
    } else {
        let last = match (rows - 1).checked_add(y) {
            Some(v) => v,
            None => {
                proof {
                    assert((rows - 1 + y) * brs >= rows - 1 + y) by (nonlinear_arith)
                        requires
                            brs >= 1,
                            rows - 1 + y >= 0,
                    ;
                }
                return false;
            },
        };
        match last.checked_mul(brs) {
            Some(v) => v,
            None => return false,
        }
    };
    let start = match off.checked_add(col) {
        Some(v) => v,
        None => return false,
    };
    match start.checked_add(irs) {
        Some(end) => end <= len,
        None => false,
    }
}

impl WaylandClient {
    /// Draws the image centered in the back buffer when the centering offsets changed, brings
    /// that buffer to the front, and queues its attach, damage and commit.
    pub fn draw(&mut self, pixels: &mut [u8]) -> (r: Result<(), ClientFailure>)
        requires
            old(self).wf(),
            old(self)@.buffers matches Some(sb) ==> old(pixels)@.len() == sb.shm.size,
        ensures
            match draw_outcome(old(self)@, old(pixels)@) {
                Ok((v, px)) => r is Ok && final(self)@ == v && final(pixels)@ == px,
                Err(e) => r == Err::<(), ClientFailure>(e),
            },
            final(self).wf(),
    {
        let ghost v0 = self@;
        let ghost px0 = pixels@;
        let mut surface_buf = match self.surface_buffers {
            Some(b) => b,
            None => return Err(ClientFailure::DrawBufferMissing),
        };
        let img_row_stride = match self.draw_width.checked_mul(4) {
            Some(s) => s,
            None => return Err(ClientFailure::Overflow),
        };
        let buf_row_stride = surface_buf.width as usize * 4;
        let back_free = if surface_buf.first_buf_front {
            surface_buf.buf_2_free
        } else {
            surface_buf.buf_1_free
        };
        if !back_free {
            let id = if surface_buf.first_buf_front {
                surface_buf.buf_2_id
            } else {
                surface_buf.buf_1_id
            };
            return Err(ClientFailure::BufferNotReleased(id));
        }
        if (self.window_width as usize) < self.draw_width || (self.window_height as usize)
            < self.draw_height {
            return Err(ClientFailure::WindowSmallerThanImage);
        }
        let new_x_offset = (self.window_width as usize - self.draw_width) / 2;
        let new_y_offset = (self.window_height as usize - self.draw_height) / 2;
        if new_x_offset != self.x_offset || new_y_offset != self.y_offset {
            let buf_col_offset = match new_x_offset.checked_mul(4) {
                Some(c) => c,
                None => return Err(ClientFailure::Overflow),
            };
            let half = surface_buf.shm.size / 2;
            let blen = if surface_buf.first_buf_front {
                surface_buf.shm.size - half
            } else {
                half
            };
            let draw_height = self.draw_height;
            if !rows_fit_exec(
                draw_height,
                new_y_offset,
                buf_row_stride,
                buf_col_offset,
                img_row_stride,
                blen,
            ) {
                return Err(ClientFailure::ImageOutsideBuffer);
            }
            let image = self.img_argb8.as_slice();
            let image_len = image.len();
            assert(image_len == image@.len());
            let buf = surface_buf.get_draw_buffer_mut(pixels);
            assert(buf@.len() == blen);
            // Clear the entire buffer
            let mut i: usize = 0;
            while i < blen
                invariant
                    i <= blen,
                    buf@.len() == blen,
                    forall|j: int| 0 <= j < i ==> buf@[j] == 0u8,
                decreases blen - i,
            {
                buf[i] = 0u8;
                i = i + 1;
            }
            let ghost canvas = Seq::new(blen as nat, |j: int| 0u8);
            assert(buf@ =~= canvas);
            assert(draw_height + new_y_offset <= self.window_height);
            // Move the pixels, row by row, to the new offset
            let mut row: usize = 0;
            while row < draw_height
                invariant
                    row <= draw_height,
                    draw_height == v0.draw_height,
                    draw_height + new_y_offset <= u32::MAX,
                    image@ == v0.image,
                    image@.len() == image_len,
                    image@.len() == img_row_stride * draw_height,
                    img_row_stride == 4 * v0.draw_width,
                    buf@.len() == blen,
                    rows_fit(
                        draw_height as int,
                        new_y_offset as int,
                        buf_row_stride as int,
                        buf_col_offset as int,
                        img_row_stride as int,
                        blen as int,
                    ),
                    buf@ == paint_rows(
                        canvas,
                        image@,
                        img_row_stride as int,
                        buf_row_stride as int,
                        buf_col_offset as int,
                        new_y_offset as int,
                        row as nat,
                    ),
                decreases draw_height - row,
            {
                proof {
                    assert((row + new_y_offset) * buf_row_stride <= (draw_height - 1 + new_y_offset)
                        * buf_row_stride) by (nonlinear_arith)
                        requires
                            row <= draw_height - 1,
                            buf_row_stride >= 0,
                    ;
                    assert(row * img_row_stride + img_row_stride <= draw_height * img_row_stride)
                        by (nonlinear_arith)
                        requires
                            row + 1 <= draw_height,
                            img_row_stride >= 0,
                    ;
                    assert(row * img_row_stride >= 0) by (nonlinear_arith)
                        requires
                            img_row_stride >= 0,
                    ;
                    assert(draw_height * img_row_stride == img_row_stride * draw_height) by (
                    nonlinear_arith);
                }
                assert(row * img_row_stride + img_row_stride <= image_len);
                assert((row + new_y_offset) * buf_row_stride + buf_col_offset + img_row_stride <= blen);
                let img_row_offset = row * img_row_stride;
                let buf_row_offset = (row + new_y_offset) * buf_row_stride;
                let buf_draw_start = buf_row_offset + buf_col_offset;
                let ghost prev = buf@;
                let mut j: usize = 0;
                while j < img_row_stride
                    invariant
                        j <= img_row_stride,
                        buf_draw_start + img_row_stride <= blen,
                        img_row_offset + img_row_stride <= image@.len(),
                        image@.len() == image_len,
                        prev.len() == blen,
                        buf@ == prev.subrange(0, buf_draw_start as int) + image@.subrange(
                            img_row_offset as int,
                            img_row_offset + j,
                        ) + prev.subrange(buf_draw_start + j, blen as int),
                    decreases img_row_stride - j,
                {
                    buf[buf_draw_start + j] = image[img_row_offset + j];
                    j = j + 1;
                    assert(buf@ =~= prev.subrange(0, buf_draw_start as int) + image@.subrange(
                        img_row_offset as int,
                        img_row_offset + j,
                    ) + prev.subrange(buf_draw_start + j, blen as int));
                }
                row = row + 1;
            }
            self.x_offset = new_x_offset;
            self.y_offset = new_y_offset;
            let attach_buf_id = surface_buf.commit_draw();
            self.surface_buffers = Some(surface_buf);
            self.conn.wl_surface_attach(self.interfaces.wl_surface, attach_buf_id);
            let x_min = if new_x_offset < self.x_offset {
                new_x_offset
            } else {
                self.x_offset
            };
            let y_min = if new_y_offset < self.y_offset {
                new_y_offset
            } else {
                self.y_offset
            };
            let x_diff = if self.x_offset > new_x_offset {
                self.x_offset - new_x_offset
            } else {
                new_x_offset - self.x_offset
            };
            let y_diff = if self.y_offset > new_y_offset {
                self.y_offset - new_y_offset
            } else {
                new_y_offset - self.y_offset
            };
            assert(x_diff == 0 && y_diff == 0);
            self.conn.wl_surface_damage_buffer(
                self.interfaces.wl_surface,
                x_min as i32,
                y_min as i32,
                (self.draw_width + x_diff) as i32,
                (self.draw_height + y_diff) as i32,
            );
            self.x_offset = new_x_offset;
            self.y_offset = new_y_offset;
            self.conn.wl_surface_commit(self.interfaces.wl_surface);
            proof {
                let expected = draw_outcome(v0, px0).unwrap();
                assert(self@.sent =~= expected.0.sent);
                assert(pixels@ =~= expected.1);
            }
        }
        Ok(())
    }
}

} // verus!

verus! {

/// The announced globals after `info` is announced: it takes the place of the one with the
/// same name, or comes last when there is none.
pub open spec fn insert_interface(
    ads: Seq<(u32, Seq<u8>, u32)>,
    info: (u32, Seq<u8>, u32),
) -> Seq<(u32, Seq<u8>, u32)> {
    if exists|i: int| 0 <= i < ads.len() && #[trigger] ads[i].1 == info.1 {
        ads.update(choose|i: int| 0 <= i < ads.len() && #[trigger] ads[i].1 == info.1, info)
    } else {
        ads.push(info)
    }
}

/// The client after handling one event, or `None` when the event's arguments are not what
/// the protocol prescribes.
pub open spec fn event_step(v: ClientView, h: WaylandHeader, args: Seq<u8>) -> Option<ClientView> {
    let ids = v.interfaces;
    if h.object_id == ids.wl_registry && h.opcode == wl_registry::events::GLOBAL {
        if registry_global_ok(args) {
            Some(
                ClientView {
                    advertised: insert_interface(
                        v.advertised,
                        (
                            spec_u32_at(args, 0),
                            registry_global_name(args),
                            registry_global_version(args),
                        ),
                    ),
                    status: ClientStatus::ReadingGlobalInterfaces,
                    ..v
                },
            )
        } else {
            None
        }
    } else if h.object_id == wl_display::OBJECT_ID && h.opcode == wl_display::events::ERROR {
        if display_error_ok(args) {
            Some(
                ClientView {
                    errors: v.errors.push(
                        (spec_u32_at(args, 0), spec_u32_at(args, 4), display_error_msg(args)),
                    ),
                    ..v
                },
            )
        } else {
            None
        }
    } else if h.object_id == ids.wl_shm && h.opcode == wl_shm::events::FORMAT {
        Some(ClientView { status: ClientStatus::ReadingFormats, ..v })
    } else if h.object_id == ids.xdg_wm_base && h.opcode == xdg_wm_base::events::PING {
        if args.len() >= 4 {
            Some(ClientView { pending_ping: Some(spec_u32_at(args, 0)), ..v })
        } else {
            None
        }
    } else if h.object_id == ids.xdg_surface && h.opcode == xdg_surface::events::CONFIGURE {
        if args.len() >= 4 {
            Some(ClientView { pending_configure: Some(spec_u32_at(args, 0)), ..v })
        } else {
            None
        }
    } else if h.object_id == ids.xdg_toplevel {
        if h.opcode == xdg_toplevel::events::WM_CAPABILITIES {
            if wl_array_ok(args) && forall|k: int|
                0 <= k < wl_array_elems(args).len() ==> #[trigger] capability_of(
                    wl_array_elems(args)[k],
                ) is Some {
                Some(v)
            } else {
                None
            }
        } else if h.opcode == xdg_toplevel::events::CONFIGURE {
            if args.len() >= 8 && wl_array_ok(args.subrange(8, args.len() as int)) {
                let width = spec_u32_at(args, 0);
                let height = spec_u32_at(args, 4);
                if v.status == ClientStatus::AwaitingInitialConfigure {
                    Some(
                        ClientView {
                            window_width: width,
                            window_height: height,
                            status: ClientStatus::GotInitialConfigure,
                            ..v
                        },
                    )
                } else if width != v.window_width || height != v.window_height {
                    Some(
                        ClientView {
                            window_width: width,
                            window_height: height,
                            status: ClientStatus::Resizing(0),
                            ..v
                        },
                    )
                } else {
                    Some(v)
                }
            } else {
                None
            }
        } else if h.opcode == xdg_toplevel::events::CLOSE {
            Some(ClientView { status: ClientStatus::Closing, ..v })
        } else {
            Some(v)
        }
    } else if h.object_id == ids.wl_buffer_1 || (h.object_id == ids.wl_buffer_2 && h.opcode
        == wl_buffer::events::RELEASE) {
        match v.buffers {
            Some(b) => Some(ClientView { buffers: Some(released(b, h.object_id)), ..v }),
            None => Some(v),
        }
    } else {
        Some(v)
    }
}

/// The client after handling the events in order, or `None` when one of them is not well
/// formed.
pub open spec fn events_step(v: ClientView, msgs: Seq<(WaylandHeader, Seq<u8>)>) -> Option<
    ClientView,
>
    decreases msgs.len(),
{
    if msgs.len() == 0 {
        Some(v)
    } else {
        match event_step(v, msgs[0].0, msgs[0].1) {
            None => None,
            Some(next) => events_step(next, msgs.subrange(1, msgs.len() as int)),
        }
    }
}

/// Tells whether every code names a capability the protocol defines.
fn capabilities_known(caps: &[u32]) -> (ok: bool)
    ensures
        ok == forall|k: int| 0 <= k < caps@.len() ==> #[trigger] capability_of(caps@[k]) is Some,
{
    let mut k: usize = 0;
    while k < caps.len()
        invariant
            k <= caps@.len(),
            forall|j: int| 0 <= j < k ==> #[trigger] capability_of(caps@[j]) is Some,
        decreases caps@.len() - k,
    {
        match WM_CAPABILITIES::try_from(caps[k]) {
            Ok(_) => {},
            Err(_) => {
                assert(!(capability_of(caps@[k as int]) is Some));
                return false;
            },
        }
        k = k + 1;
    }
    true
}

/// Tells whether two byte strings are equal.
fn bytes_eq(a: &[u8], b: &[u8]) -> (eq: bool)
    ensures
        eq == (a@ == b@),
{
    if a.len() != b.len() {
        return false;
    }
    let mut i: usize = 0;
    while i < a.len()
        invariant
            a@.len() == b@.len(),
            i <= a@.len(),
            forall|j: int| 0 <= j < i ==> a@[j] == b@[j],
        decreases a@.len() - i,
    {
        if a[i] != b[i] {
            return false;
        }
        i = i + 1;
    }
    assert(a@ =~= b@);
    true
}

} // verus!

verus! {

/// Records an announced global: it takes the place of the one with the same name, or comes
/// last when there is none.
fn record_interface(ads: &mut Vec<InterfaceInfo>, info: InterfaceInfo)
    requires
        advertised_ok(advertised_views(old(ads)@)),
        name_bindable(info.name@),
    ensures
        advertised_views(final(ads)@) == insert_interface(
            advertised_views(old(ads)@),
            info@,
        ),
        advertised_ok(advertised_views(final(ads)@)),
{
    let ghost before = advertised_views(ads@);
    let mut k: usize = 0;
    while k < ads.len()
        invariant
            k <= ads@.len(),
            ads@ == old(ads)@,
            before == advertised_views(ads@),
            advertised_ok(before),
            name_bindable(info.name@),
            forall|j: int| 0 <= j < k ==> before[j].1 != info.name@,
        decreases ads@.len() - k,
    {
        if bytes_eq(ads[k].name.as_slice(), info.name.as_slice()) {
            proof {
                assert(before[k as int].1 == info@.1);
                assert(exists|i: int| 0 <= i < before.len() && #[trigger] before[i].1 == info@.1);
                let c = choose|i: int| 0 <= i < before.len() && #[trigger] before[i].1 == info@.1;
                if c != k as int {
                    if c < k {
                        assert(before[c].1 != before[k as int].1);
                    } else {
                        assert(before[k as int].1 != before[c].1);
                    }
                }
                assert(c == k as int);
            }
            ads.set(k, info);
            proof {
                let after = advertised_views(ads@);
                assert(after =~= before.update(k as int, info@));
            }
            return;
        }
        k = k + 1;
    }
    proof {
        assert(!exists|i: int| 0 <= i < before.len() && #[trigger] before[i].1 == info@.1);
    }
    ads.push(info);
    proof {
        let after = advertised_views(ads@);
        assert(after =~= before.push(info@));
    }
}

} // verus!

verus! {

/// What handling the received events does: on success, the client afterwards; otherwise
/// which kind of malformed input stopped it.
pub open spec fn handle_outcome(v: ClientView) -> Result<ClientView, ClientFailure> {
    let msgs = complete_messages(v.received);
    let used = complete_len(v.received);
    match events_step(v, msgs) {
        None => Err(ClientFailure::MalformedEvent),
        Some(after) => if ends_in_malformed_header(v.received) {
            Err(ClientFailure::MalformedHeader)
        } else {
            Ok(
                ClientView {
                    received: v.received.subrange(used as int, v.received.len() as int),
                    free_space: v.free_space + used,
                    ..after
                },
            )
        },
    }
}

impl WaylandClient {
    /// Handles one event: updates what the client knows, or reports that the event's arguments
    /// are not well formed.
    fn handle_event(&mut self, header: WaylandHeader, args: &[u8]) -> (r: Result<(), ClientFailure>)
        requires
            old(self).wf(),
            args@.len() <= MSG_BUF_SIZE,
        ensures
            match event_step(old(self)@, header, args@) {
                Some(v) => r is Ok && final(self)@ == v && final(self).wf(),
                None => r == Err::<(), ClientFailure>(ClientFailure::MalformedEvent),
            },
            final(self).conn == old(self).conn,
    {
        let ghost v = self@;
        if header.object_id == self.interfaces.wl_registry && header.opcode
            == wl_registry::events::GLOBAL {
            if !InterfaceInfo::check_registry_global(args) {
                return Err(ClientFailure::MalformedEvent);
            }
            let interface = InterfaceInfo::from_registry_global_event(args);
            proof {
                lemma_global_name_bindable(args@);
            }
            record_interface(&mut self.advertised_interfaces, interface);
            self.state.status = ClientStatus::ReadingGlobalInterfaces;
        } else if header.object_id == wl_display::OBJECT_ID && header.opcode
            == wl_display::events::ERROR {
            match WlDisplayError::from_error_event(args) {
                Some(err) => {
                    self.state.pending_errors.push(err);
                },
                None => return Err(ClientFailure::MalformedEvent),
            }
        } else if header.object_id == self.interfaces.wl_shm && header.opcode
            == wl_shm::events::FORMAT {
            // Currently list of formats is not required as ARGB8888 is guaranteed to exist
            self.state.status = ClientStatus::ReadingFormats;
        } else if header.object_id == self.interfaces.xdg_wm_base && header.opcode
            == xdg_wm_base::events::PING {
            if args.len() < 4 {
                return Err(ClientFailure::MalformedEvent);
            }
            let (serial, _) = read_wl_u32(args);
            self.state.pending_ping = Some(serial);
        } else if header.object_id == self.interfaces.xdg_surface && header.opcode
            == xdg_surface::events::CONFIGURE {
            if args.len() < 4 {
                return Err(ClientFailure::MalformedEvent);
            }
            let (serial, _) = read_wl_u32(args);
            self.state.pending_configure = Some(serial);
        } else if header.object_id == self.interfaces.xdg_toplevel {
            if header.opcode == xdg_toplevel::events::WM_CAPABILITIES {
                if !check_wl_array(args) {
                    return Err(ClientFailure::MalformedEvent);
                }
                let (capabilities, _) = read_wl_array(args);
                if !capabilities_known(capabilities.as_slice()) {
                    return Err(ClientFailure::MalformedEvent);
                }
            } else if header.opcode == xdg_toplevel::events::CONFIGURE {
                if args.len() < 8 {
                    return Err(ClientFailure::MalformedEvent);
                }
                let (width, rest1) = read_wl_u32(args);
                let (height, rest2) = read_wl_u32(rest1);
                proof {
                    assert(rest1@.subrange(0, 4) =~= args@.subrange(4, 8));
                    assert(rest2@ =~= args@.subrange(8, args@.len() as int));
                }
                if !check_wl_array(rest2) {
                    return Err(ClientFailure::MalformedEvent);
                }
                let (_states, _) = read_wl_array(rest2);
                if let ClientStatus::AwaitingInitialConfigure = self.state.status {
                    self.window_width = width;
                    self.window_height = height;
                    self.state.status = ClientStatus::GotInitialConfigure;
                } else if width != self.window_width || height
                    != self.window_height {
                    // Check if it is resized
                    self.window_width = width;
                    self.window_height = height;
                    self.state.status = ClientStatus::Resizing(0);
                }
            } else if header.opcode == xdg_toplevel::events::CLOSE {
                self.state.status = ClientStatus::Closing;
            }
        } else if (header.object_id == self.interfaces.wl_buffer_1) || (
        header.object_id == self.interfaces.wl_buffer_2 && header.opcode
            == wl_buffer::events::RELEASE) {
            // Buffer released
            if let Some(mut surface_bufs) = self.surface_buffers {
                surface_bufs.release_buf(header.object_id);
                self.surface_buffers = Some(surface_bufs);
            }
        }
        proof {
            if event_step(v, header, args@) is Some {
                assert(self@.errors =~= event_step(v, header, args@).unwrap().errors);
                assert(self@.advertised =~= event_step(v, header, args@).unwrap().advertised);
            }
        }
        Ok(())
    }

    /// Handles unhandled events in the buffer
    /// Returns true if any events were handled during this iteration or if any events are pending
    /// (not fully read). The output boolean is treated as a state that represents whether event
    /// handling is in progress.
    #[verifier::rlimit(50)]
    pub fn handle_events(&mut self) -> (r: Result<bool, ClientFailure>)
        requires
            old(self).wf(),
        ensures
            match handle_outcome(old(self)@) {
                Ok(v) => {
                    &&& r == Ok::<bool, ClientFailure>(
                        complete_messages(old(self)@.received).len() > 0 || complete_len(
                            old(self)@.received,
                        ) < old(self)@.received.len(),
                    )
                    &&& final(self)@ == v
                    &&& final(self).wf()
                },
                Err(e) => r == Err::<bool, ClientFailure>(e),
            },
    {
        let ghost v0 = self@;
        let data = self.conn.received_bytes();
        let mut events_handled = false;
        let mut msg_reader = MsgBufReader::new(data.as_slice());
        let ghost mut count: nat = 0;
        loop
            invariant
                v0 == old(self)@,
                view_ok(self@),
                self.conn == old(self).conn,
                data@ == v0.received,
                data@.len() <= MSG_BUF_SIZE,
                msg_reader.rest().len() <= MSG_BUF_SIZE,
                msg_reader.offset() + complete_len(msg_reader.rest()) == complete_len(v0.received),
                incomplete_tail(msg_reader.rest()) == incomplete_tail(v0.received),
                events_step(v0, complete_messages(v0.received)) == events_step(
                    self@,
                    complete_messages(msg_reader.rest()),
                ),
                events_handled == (count > 0),
                (msg_reader.offset() > 0) == (count > 0),
                complete_messages(v0.received).len() == count + complete_messages(
                    msg_reader.rest(),
                ).len(),
            ensures
                !has_complete_message(msg_reader.rest()),
                !has_malformed_header(msg_reader.rest()),
            decreases msg_reader.rest().len(),
        {
            if msg_reader.at_malformed_header() {
                proof {
                    lemma_complete_none(msg_reader.rest());
                    assert(events_step(self@, complete_messages(msg_reader.rest())) == Some(self@));
                }
                return Err(ClientFailure::MalformedHeader);
            }
            let ghost rest = msg_reader.rest();
            match msg_reader.next() {
                None => {
                    proof {
                        lemma_complete_none(rest);
                    }
                    break;
                },
                Some((header, args, _args_size)) => {
                    let ghost before = self@;
                    proof {
                        lemma_complete_unfold(rest);
                        assert(events_step(before, complete_messages(rest)) == match event_step(
                            before,
                            header,
                            args@,
                        ) {
                            None => None,
                            Some(next) => events_step(next, complete_messages(msg_reader.rest())),
                        });
                        count = count + 1;
                    }
                    events_handled = true;
                    match self.handle_event(header, args) {
                        Ok(()) => {},
                        Err(e) => {
                            proof {
                                assert(event_step(before, header, args@) is None);
                                assert(events_step(v0, complete_messages(v0.received)) is None);
                                assert(handle_outcome(v0) == Err::<ClientView, ClientFailure>(
                                    ClientFailure::MalformedEvent,
                                ));
                            }
                            return Err(e);
                        },
                    }
                },
            }
        }
        let remainder_offset = msg_reader.finish();
        proof {
            lemma_complete_len(v0.received);
        }
        self.conn.reset_buffer(remainder_offset);
        Ok(events_handled || remainder_offset < data.len())
    }
}

} // verus!


verus! {

/// What the application has to do after a step of the client.
#[derive(Debug, Clone, Copy, PartialEq, Eq)]
pub enum Step {
    /// Nothing more: write the queued requests and go on reading events.
    Continue,
    /// Create shared memory with this layout, then hand its descriptor to `create_buffers`.
    AllocateShm(ShmGeometry),
    /// Grow the shared memory to `new_size` bytes when that is more than `old_size`, then call
    /// `shm_resized`.
    ResizeShm { old_size: usize, new_size: usize },
    /// The client let go of its buffers: release the shared memory.
    ReleaseShm,
    /// End the process with this exit code.
    Exit(i32),
    /// The client cannot go on.
    Fail(ClientFailure),
}

/// The bytes of the name `wl_shm`.
pub open spec fn wl_shm_name() -> Seq<u8> {
    seq![119u8, 108, 95, 115, 104, 109]
}

/// The bytes of the name `xdg_wm_base`.
pub open spec fn xdg_wm_base_name() -> Seq<u8> {
    seq![120u8, 100, 103, 95, 119, 109, 95, 98, 97, 115, 101]
}

/// The bytes of the name `wl_compositor`.
pub open spec fn wl_compositor_name() -> Seq<u8> {
    seq![119u8, 108, 95, 99, 111, 109, 112, 111, 115, 105, 116, 111, 114]
}

/// The client after answering a pending ping with a pong.
pub open spec fn pong_step(v: ClientView) -> ClientView {
    match v.pending_ping {
        Some(serial) => ClientView {
            pending_ping: None,
            sent: v.sent.push(
                request(v.interfaces.xdg_wm_base, xdg_wm_base::opcodes::PONG, ne_u32_bytes(serial)),
            ),
            ..v
        },
        None => v,
    }
}

/// Binding the announced global with this name, if there is one: the client afterwards and
/// the id of the bound object.
pub open spec fn bind_one(v: ClientView, name: Seq<u8>) -> Result<
    (ClientView, Option<u32>),
    ClientFailure,
> {
    if exists|i: int| 0 <= i < v.advertised.len() && #[trigger] v.advertised[i].1 == name {
        let info = v.advertised[choose|i: int|
            0 <= i < v.advertised.len() && #[trigger] v.advertised[i].1 == name];
        if v.last_id == u32::MAX {
            Err(ClientFailure::IdsExhausted)
        } else {
            let id = (v.last_id + 1) as u32;
            Ok(
                (
                    ClientView {
                        sent: v.sent.push(
                            request(
                                v.interfaces.wl_registry,
                                wl_registry::opcodes::BIND,
                                bind_args(info, id),
                            ),
                        ),
                        last_id: id,
                        ..v
                    },
                    Some(id),
                ),
            )
        }
    } else {
        Ok((v, None))
    }
}

/// Binding `wl_shm`, `xdg_wm_base` and `wl_compositor`, those that were announced.
#[verifier::opaque]
pub open spec fn bind_interfaces_outcome(v: ClientView) -> Result<ClientView, ClientFailure> {
    match bind_one(v, wl_shm_name()) {
        Err(e) => Err(e),
        Ok((v1, id1)) => {
            let v1 = match id1 {
                Some(id) => ClientView { interfaces: InterfaceIds { wl_shm: id, ..v1.interfaces }, ..v1 },
                None => v1,
            };
            match bind_one(v1, xdg_wm_base_name()) {
                Err(e) => Err(e),
                Ok((v2, id2)) => {
                    let v2 = match id2 {
                        Some(id) => ClientView {
                            interfaces: InterfaceIds { xdg_wm_base: id, ..v2.interfaces },
                            ..v2
                        },
                        None => v2,
                    };
                    match bind_one(v2, wl_compositor_name()) {
                        Err(e) => Err(e),
                        Ok((v3, id3)) => Ok(
                            match id3 {
                                Some(id) => ClientView {
                                    interfaces: InterfaceIds { wl_compositor: id, ..v3.interfaces },
                                    ..v3
                                },
                                None => v3,
                            },
                        ),
                    }
                },
            }
        },
    }
}

/// Creating the surface, its xdg surface and toplevel, and committing the surface.
#[verifier::opaque]
pub open spec fn create_surface_outcome(v: ClientView) -> Result<ClientView, ClientFailure> {
    if v.last_id > u32::MAX - 3 {
        Err(ClientFailure::IdsExhausted)
    } else {
        let surface = (v.last_id + 1) as u32;
        let xdg = (v.last_id + 2) as u32;
        let toplevel = (v.last_id + 3) as u32;
        let ids = v.interfaces;
        Ok(
            ClientView {
                sent: v.sent.push(
                    request(
                        ids.wl_compositor,
                        wl_compositor::opcodes::CREATE_SERVICE,
                        ne_u32_bytes(surface),
                    ),
                ).push(
                    request(
                        ids.xdg_wm_base,
                        xdg_wm_base::opcodes::GET_XDG_SURFACE,
                        ne_u32_bytes(xdg) + ne_u32_bytes(surface),
                    ),
                ).push(request(xdg, xdg_surface::opcodes::GET_TOPLEVEL, ne_u32_bytes(toplevel))).push(
                    request(surface, wl_surface::opcodes::COMMIT, Seq::empty()),
                ),
                interfaces: InterfaceIds {
                    wl_surface: surface,
                    xdg_surface: xdg,
                    xdg_toplevel: toplevel,
                    ..ids
                },
                last_id: toplevel,
                ..v
            },
        )
    }
}

/// A waiting stage that ends once no event is being handled: without errors the client moves
/// on to `next`, with errors it exits with status 1.
pub open spec fn gate_outcome(v: ClientView, in_progress: bool, next: ClientStatus) -> (
    ClientView,
    Step,
) {
    if !in_progress {
        if v.errors.len() == 0 {
            (pong_step(ClientView { status: next, ..v }), Step::Continue)
        } else {
            (v, Step::Exit(1))
        }
    } else {
        (pong_step(v), Step::Continue)
    }
}

/// The layout of the double buffer of a `width` by `height` window.
pub open spec fn geometry_of(width: u32, height: u32) -> ShmGeometry {
    ShmGeometry {
        size: double_buffer_size(width, height) as usize,
        height,
        width,
        stride: (4 * width) as u32,
    }
}

/// What creating the buffers in the shared memory behind `fd` does.
pub open spec fn create_buffers_outcome(v: ClientView, fd: i32) -> (ClientView, Step) {
    let w = v.window_width;
    if v.status != ClientStatus::CreatingBuffers {
        (v, Step::Fail(ClientFailure::OutOfSequence))
    } else if !double_buffer_fits(w, w) {
        (v, Step::Fail(ClientFailure::ShmTooLarge))
    } else if v.last_id > u32::MAX - 3 {
        (v, Step::Fail(ClientFailure::IdsExhausted))
    } else {
        let g = geometry_of(w, w);
        let pool = (v.last_id + 1) as u32;
        let b1 = (v.last_id + 2) as u32;
        let b2 = (v.last_id + 3) as u32;
        let ids = v.interfaces;
        let after = ClientView {
            sent: v.sent.push(
                (
                    message_bytes(
                        ids.wl_shm,
                        wl_shm::opcodes::CREATE_POOL,
                        ne_u32_bytes(pool) + ne_u32_bytes(g.size as u32),
                    ),
                    Some(fd),
                ),
            ).push(
                request(
                    pool,
                    wl_shm_pool::opcodes::CREATE_BUFFER,
                    create_buffer_args(b1, 0, w, w, g.stride, wl_shm::FORMAT_ARGB888),
                ),
            ).push(
                request(
                    pool,
                    wl_shm_pool::opcodes::CREATE_BUFFER,
                    create_buffer_args(
                        b2,
                        (g.size / 2) as u32,
                        w,
                        w,
                        g.stride,
                        wl_shm::FORMAT_ARGB888,
                    ),
                ),
            ),
            interfaces: InterfaceIds { wl_shm_pool: pool, wl_buffer_1: b1, wl_buffer_2: b2, ..ids },
            buffers: Some(
                SurfaceBuffers {
                    width: w,
                    height: w,
                    buf_1_id: b1,
                    buf_1_free: true,
                    buf_2_id: b2,
                    buf_2_free: true,
                    first_buf_front: true,
                    shm: g,
                },
            ),
            last_id: b2,
            status: ClientStatus::Drawing,
            ..v
        };
        (pong_step(after), Step::Continue)
    }
}

/// The buffers resized for a window of `width` by `height`.
pub open spec fn resized_buffers(sb: SurfaceBuffers, width: u32, height: u32) -> SurfaceBuffers {
    let size = if double_buffer_size(width, height) > sb.shm.size {
        double_buffer_size(width, height) as usize
    } else {
        sb.shm.size
    };
    SurfaceBuffers {
        width,
        height,
        first_buf_front: true,
        shm: ShmGeometry { size, width, height, stride: (4 * width) as u32 },
        ..sb
    }
}

/// Whether the resize stage of a client can go on, and if not, why.
pub open spec fn resize_check(v: ClientView) -> Option<ClientFailure> {
    match v.buffers {
        None => Some(ClientFailure::OutOfSequence),
        Some(sb) => if !(sb.buf_1_free && sb.buf_2_free) {
            Some(ClientFailure::BuffersBusy)
        } else if !double_buffer_fits(v.window_width, v.window_height) {
            Some(ClientFailure::ShmTooLarge)
        } else {
            None
        },
    }
}

/// What finishing the resize of the buffers does, once the shared memory has grown.
pub open spec fn shm_resized_outcome(v: ClientView) -> (ClientView, Step) {
    if v.status != ClientStatus::Resizing(1) {
        (v, Step::Fail(ClientFailure::OutOfSequence))
    } else {
        match resize_check(v) {
            Some(e) => (v, Step::Fail(e)),
            None => {
                let sb = v.buffers.unwrap();
                let nb = resized_buffers(sb, v.window_width, v.window_height);
                let sent = if nb.shm.size > sb.shm.size {
                    v.sent.push(
                        request(
                            v.interfaces.wl_shm_pool,
                            wl_shm_pool::opcodes::RESIZE,
                            ne_u32_bytes(nb.shm.size as u32),
                        ),
                    )
                } else {
                    v.sent
                };
                (
                    pong_step(
                        ClientView {
                            buffers: Some(nb),
                            sent,
                            status: ClientStatus::Resizing(2),
                            ..v
                        },
                    ),
                    Step::Continue,
                )
            },
        }
    }
}

} // verus!

verus! {

/// What a resize stage does when no event is being handled, no error is pending and the
/// buffers exist.
pub open spec fn resize_outcome(v: ClientView, stage: u32) -> (ClientView, Step) {
    let ids = v.interfaces;
    let sb = v.buffers.unwrap();
    if stage == 0 {
        (
            pong_step(
                ClientView {
                    sent: v.sent.push(
                        request(ids.wl_buffer_1, wl_buffer::opcodes::DESTROY, Seq::empty()),
                    ).push(request(ids.wl_buffer_2, wl_buffer::opcodes::DESTROY, Seq::empty())),
                    status: ClientStatus::Resizing(1),
                    ..v
                },
            ),
            Step::Continue,
        )
    } else if stage == 1 {
        match resize_check(v) {
            Some(e) => (v, Step::Fail(e)),
            None => (
                v,
                Step::ResizeShm {
                    old_size: sb.shm.size,
                    new_size: resized_buffers(sb, v.window_width, v.window_height).shm.size,
                },
            ),
        }
    } else if stage == 2 {
        if v.last_id > u32::MAX - 2 {
            (v, Step::Fail(ClientFailure::IdsExhausted))
        } else {
            let b1 = (v.last_id + 1) as u32;
            let b2 = (v.last_id + 2) as u32;
            (
                pong_step(
                    ClientView {
                        sent: v.sent.push(
                            request(
                                ids.wl_shm_pool,
                                wl_shm_pool::opcodes::CREATE_BUFFER,
                                create_buffer_args(
                                    b1,
                                    0,
                                    sb.width,
                                    sb.height,
                                    sb.shm.stride,
                                    wl_shm::FORMAT_ARGB888,
                                ),
                            ),
                        ).push(
                            request(
                                ids.wl_shm_pool,
                                wl_shm_pool::opcodes::CREATE_BUFFER,
                                create_buffer_args(
                                    b2,
                                    (sb.shm.size / 2) as u32,
                                    sb.width,
                                    sb.height,
                                    sb.shm.stride,
                                    wl_shm::FORMAT_ARGB888,
                                ),
                            ),
                        ),
                        interfaces: InterfaceIds { wl_buffer_1: b1, wl_buffer_2: b2, ..ids },
                        buffers: Some(SurfaceBuffers { buf_1_id: b1, buf_2_id: b2, ..sb }),
                        last_id: b2,
                        status: ClientStatus::Resizing(3),
                        ..v
                    },
                ),
                Step::Continue,
            )
        }
    } else {
        (pong_step(ClientView { status: ClientStatus::Drawing, ..v }), Step::Continue)
    }
}

/// The client after it destroyed its objects on close, and what the application has to do.
pub open spec fn close_outcome(v: ClientView) -> (ClientView, Step) {
    let ids = v.interfaces;
    let sent0 = v.sent.push(request(ids.xdg_toplevel, xdg_toplevel::opcodes::DESTROY, Seq::empty())).push(
        request(ids.xdg_surface, xdg_surface::opcodes::DESTROY, Seq::empty()),
    ).push(request(ids.wl_surface, wl_surface::opcodes::DESTROY, Seq::empty()));
    let sent1 = match v.buffers {
        Some(sb) => sent0.push(request(sb.buf_1_id, wl_buffer::opcodes::DESTROY, Seq::empty())).push(
            request(sb.buf_2_id, wl_buffer::opcodes::DESTROY, Seq::empty()),
        ),
        None => sent0,
    };
    let sent2 = sent1.push(request(ids.wl_shm_pool, wl_shm_pool::opcodes::DESTROY, Seq::empty())).push(
        request(ids.wl_shm, wl_shm::opcodes::RELEASE, Seq::empty()),
    ).push(request(ids.xdg_wm_base, xdg_wm_base::opcodes::DESTROY, Seq::empty()));
    (
        pong_step(ClientView { sent: sent2, buffers: None, status: ClientStatus::Exiting, ..v }),
        Step::ReleaseShm,
    )
}

/// What one step of the client does, given whether events are still being handled and the
/// pixel memory of its buffers: the client afterwards, what the application has to do, and the
/// pixel memory afterwards.
pub open spec fn update_outcome(v: ClientView, in_progress: bool, pixels: Seq<u8>) -> (
    ClientView,
    Step,
    Seq<u8>,
) {
    match v.status {
        ClientStatus::Connected => if v.last_id == u32::MAX {
            (v, Step::Fail(ClientFailure::IdsExhausted), pixels)
        } else {
            let id = (v.last_id + 1) as u32;
            (
                pong_step(
                    ClientView {
                        sent: v.sent.push(
                            request(
                                wl_display::OBJECT_ID,
                                wl_display::opcodes::GET_REGISTRY,
                                ne_u32_bytes(id),
                            ),
                        ),
                        last_id: id,
                        interfaces: InterfaceIds { wl_registry: id, ..v.interfaces },
                        status: ClientStatus::GotRegistry,
                        ..v
                    },
                ),
                Step::Continue,
                pixels,
            )
        },
        ClientStatus::ReadingGlobalInterfaces => {
            let (w, s) = gate_outcome(v, in_progress, ClientStatus::BindingInterfaces);
            (w, s, pixels)
        },
        ClientStatus::BindingInterfaces => match bind_interfaces_outcome(v) {
            Err(e) => (v, Step::Fail(e), pixels),
            Ok(w) => (
                pong_step(ClientView { status: ClientStatus::AwaitingFormats, ..w }),
                Step::Continue,
                pixels,
            ),
        },
        ClientStatus::ReadingFormats => {
            let (w, s) = gate_outcome(v, in_progress, ClientStatus::CreatingSurface);
            (w, s, pixels)
        },
        ClientStatus::CreatingSurface => match create_surface_outcome(v) {
            Err(e) => (v, Step::Fail(e), pixels),
            Ok(w) => (
                pong_step(ClientView { status: ClientStatus::AwaitingInitialConfigure, ..w }),
                Step::Continue,
                pixels,
            ),
        },
        ClientStatus::GotInitialConfigure => {
            let (w, s) = gate_outcome(v, in_progress, ClientStatus::CreatingBuffers);
            (w, s, pixels)
        },
        ClientStatus::CreatingBuffers => if !double_buffer_fits(v.window_width, v.window_width) {
            (v, Step::Fail(ClientFailure::ShmTooLarge), pixels)
        } else if v.last_id > u32::MAX - 3 {
            (v, Step::Fail(ClientFailure::IdsExhausted), pixels)
        } else {
            (v, Step::AllocateShm(geometry_of(v.window_width, v.window_width)), pixels)
        },
        ClientStatus::Drawing => if !in_progress {
            if v.errors.len() == 0 {
                match draw_outcome(v, pixels) {
                    Err(e) => (v, Step::Fail(e), pixels),
                    Ok((w, px)) => (
                        pong_step(ClientView { status: ClientStatus::Idle, ..w }),
                        Step::Continue,
                        px,
                    ),
                }
            } else {
                (v, Step::Exit(1), pixels)
            }
        } else {
            (pong_step(v), Step::Continue, pixels)
        },
        ClientStatus::Resizing(stage) => if !in_progress {
            if v.errors.len() == 0 {
                if v.buffers is Some {
                    let (w, s) = resize_outcome(v, stage);
                    (w, s, pixels)
                } else {
                    (pong_step(v), Step::Continue, pixels)
                }
            } else {
                (v, Step::Exit(1), pixels)
            }
        } else {
            (pong_step(v), Step::Continue, pixels)
        },
        ClientStatus::Idle => match v.pending_configure {
            Some(serial) => (
                pong_step(
                    ClientView {
                        pending_configure: None,
                        sent: v.sent.push(
                            request(
                                v.interfaces.xdg_surface,
                                xdg_surface::opcodes::ACK_CONFIGURE,
                                ne_u32_bytes(serial),
                            ),
                        ),
                        ..v
                    },
                ),
                Step::Continue,
                pixels,
            ),
            None => (pong_step(v), Step::Continue, pixels),
        },
        ClientStatus::Closing => {
            let (w, s) = close_outcome(v);
            (w, s, pixels)
        },
        ClientStatus::Exiting => if !in_progress {
            if v.errors.len() == 0 {
                (v, Step::Exit(0), pixels)
            } else {
                (v, Step::Exit(1), pixels)
            }
        } else {
            (pong_step(v), Step::Continue, pixels)
        },
        _ => (pong_step(v), Step::Continue, pixels),
    }
}

} // verus!

verus! {

/// The bytes of the name `wl_shm`.
fn wl_shm_name_bytes() -> (v: Vec<u8>)
    ensures
        v@ == wl_shm_name(),
{
    let v = vec![119u8, 108, 95, 115, 104, 109];
    assert(v@ =~= wl_shm_name());
    v
}

/// The bytes of the name `xdg_wm_base`.
fn xdg_wm_base_name_bytes() -> (v: Vec<u8>)
    ensures
        v@ == xdg_wm_base_name(),
{
    let v = vec![120u8, 100, 103, 95, 119, 109, 95, 98, 97, 115, 101];
    assert(v@ =~= xdg_wm_base_name());
    v
}

/// The bytes of the name `wl_compositor`.
fn wl_compositor_name_bytes() -> (v: Vec<u8>)
    ensures
        v@ == wl_compositor_name(),
{
    let v = vec![119u8, 108, 95, 99, 111, 109, 112, 111, 115, 105, 116, 111, 114];
    assert(v@ =~= wl_compositor_name());
    v
}

/// The position of the announced global with this name, if there is one.
fn find_interface(ads: &Vec<InterfaceInfo>, name: &[u8]) -> (r: Option<usize>)
    requires
        advertised_ok(advertised_views(ads@)),
    ensures
        ({
            let view = advertised_views(ads@);
            match r {
                Some(k) => {
                    &&& k < view.len()
                    &&& exists|i: int| 0 <= i < view.len() && #[trigger] view[i].1 == name@
                    &&& k == choose|i: int| 0 <= i < view.len() && #[trigger] view[i].1 == name@
                },
                None => !exists|i: int| 0 <= i < view.len() && #[trigger] view[i].1 == name@,
            }
        }),
{
    let ghost view = advertised_views(ads@);
    let mut k: usize = 0;
    while k < ads.len()
        invariant
            k <= view.len(),
            view == advertised_views(ads@),
            advertised_ok(view),
            forall|j: int| 0 <= j < k ==> view[j].1 != name@,
        decreases view.len() - k,
    {
        if bytes_eq(ads[k].name.as_slice(), name) {
            proof {
                assert(view[k as int].1 == name@);
                let c = choose|i: int| 0 <= i < view.len() && #[trigger] view[i].1 == name@;
                if c != k as int {
                    if c < k {
                        assert(view[c].1 != view[k as int].1);
                    } else {
                        assert(view[k as int].1 != view[c].1);
                    }
                }
            }
            return Some(k);
        }
        k = k + 1;
    }
    None
}

impl WaylandClient {
    /// Answers a pending ping with a pong.
    fn answer_ping(&mut self)
        requires
            old(self).wf(),
        ensures
            final(self)@ == pong_step(old(self)@),
            final(self).wf(),
    {
        let ghost v = self@;
        if let Some(serial) = self.state.pending_ping {
            self.state.pending_ping = None;
            self.conn.xdg_wm_base_pong(self.interfaces.xdg_wm_base, serial);
            assert(self@.errors =~= pong_step(v).errors);
            assert(self@.advertised =~= pong_step(v).advertised);
        }
    }

    /// Binds the announced global with this name, if there is one, and returns the bound
    /// object's id.
    fn bind_interface(&mut self, interface_name: &[u8]) -> (r: Result<Option<u32>, ClientFailure>)
        requires
            old(self).wf(),
        ensures
            match bind_one(old(self)@, interface_name@) {
                Ok((v, id)) => r == Ok::<Option<u32>, ClientFailure>(id) && final(self)@ == v,
                Err(e) => r == Err::<Option<u32>, ClientFailure>(e),
            },
            final(self).wf(),
    {
        let ghost v = self@;
        match find_interface(&self.advertised_interfaces, interface_name) {
            Some(k) => {
                if self.conn.last_obj_id() == u32::MAX {
                    return Err(ClientFailure::IdsExhausted);
                }
                let registry = self.interfaces.wl_registry;
                let new_id = self.conn.wl_registry_bind(registry, &self.advertised_interfaces[k]);
                Ok(Some(new_id))
            },
            None => Ok(None),
        }
    }

    /// Binds `wl_shm`, `xdg_wm_base` and `wl_compositor`, those that were announced.
    fn bind_interfaces(&mut self) -> (r: Result<(), ClientFailure>)
        requires
            old(self).wf(),
        ensures
            match bind_interfaces_outcome(old(self)@) {
                Ok(v) => r is Ok && final(self)@ == v,
                Err(e) => r == Err::<(), ClientFailure>(e),
            },
            final(self).wf(),
    {
        reveal(bind_interfaces_outcome);
        let shm_name = wl_shm_name_bytes();
        if let Some(id) = self.bind_interface(shm_name.as_slice())? {
            self.interfaces.wl_shm = id;
        }
        let wm_base_name = xdg_wm_base_name_bytes();
        if let Some(id) = self.bind_interface(wm_base_name.as_slice())? {
            self.interfaces.xdg_wm_base = id;
        }
        let compositor_name = wl_compositor_name_bytes();
        if let Some(id) = self.bind_interface(compositor_name.as_slice())? {
            self.interfaces.wl_compositor = id;
        }
        Ok(())
    }

    /// Creates the surface, its xdg surface and toplevel, and commits the surface.
    fn create_surface(&mut self) -> (r: Result<(), ClientFailure>)
        requires
            old(self).wf(),
        ensures
            match create_surface_outcome(old(self)@) {
                Ok(v) => r is Ok && final(self)@ == v,
                Err(e) => r == Err::<(), ClientFailure>(e),
            },
            final(self).wf(),
    {
        reveal(create_surface_outcome);
        let ghost v = self@;
        if self.conn.last_obj_id() > u32::MAX - 3 {
            return Err(ClientFailure::IdsExhausted);
        }
        self.interfaces.wl_surface = self.conn.wl_compositor_create_surface(
            self.interfaces.wl_compositor,
        );
        self.interfaces.xdg_surface = self.conn.xdg_wm_base_get_xdg_surface(
            self.interfaces.xdg_wm_base,
            self.interfaces.wl_surface,
        );
        self.interfaces.xdg_toplevel = self.conn.xdg_surface_get_toplevel(
            self.interfaces.xdg_surface,
        );
        self.conn.wl_surface_commit(self.interfaces.wl_surface);
        Ok(())
    }
}

} // verus!

verus! {

impl WaylandClient {
    /// Creates the pool in the shared memory behind `raw_fd` and the two buffers in it, then
    /// goes on drawing. Called after `update_state` asked for the shared memory.
    pub fn create_buffers(&mut self, raw_fd: i32) -> (r: Step)
        requires
            old(self).wf(),
        ensures
            r == create_buffers_outcome(old(self)@, raw_fd).1,
            !(r is Fail) ==> final(self)@ == create_buffers_outcome(old(self)@, raw_fd).0,
            final(self).wf(),
    {
        let ghost v = self@;
        match self.state.status {
            ClientStatus::CreatingBuffers => {},
            _ => return Step::Fail(ClientFailure::OutOfSequence),
        }
        let width = self.window_width;
        if !ShmGeometry::fits(width, width) {
            return Step::Fail(ClientFailure::ShmTooLarge);
        }
        if self.conn.last_obj_id() > u32::MAX - 3 {
            return Step::Fail(ClientFailure::IdsExhausted);
        }
        let mut surface_bufs = SurfaceBuffers::new(width, width);
        self.interfaces.wl_shm_pool = self.conn.wl_shm_create_pool(
            self.interfaces.wl_shm,
            surface_bufs.shm.size as u32,
            raw_fd,
        );
        // Creating buffers
        self.interfaces.wl_buffer_1 = self.conn.wl_shm_pool_create_buffer(
            self.interfaces.wl_shm_pool,
            0,
            surface_bufs.width,
            surface_bufs.height,
            surface_bufs.shm.stride,
            wl_shm::FORMAT_ARGB888,
        );
        self.interfaces.wl_buffer_2 = self.conn.wl_shm_pool_create_buffer(
            self.interfaces.wl_shm_pool,
            (surface_bufs.shm.size / 2) as u32,
            surface_bufs.width,
            surface_bufs.height,
            surface_bufs.shm.stride,
            wl_shm::FORMAT_ARGB888,
        );
        surface_bufs.set_ids(self.interfaces.wl_buffer_1, self.interfaces.wl_buffer_2);
        self.surface_buffers = Some(surface_bufs);
        self.state.status = ClientStatus::Drawing;
        self.answer_ping();
        Step::Continue
    }

    /// Resizes the buffers' layout and tells the compositor that the pool grew, if it did.
    /// Called after `update_state` asked for the shared memory to be resized, once it is.
    pub fn shm_resized(&mut self) -> (r: Step)
        requires
            old(self).wf(),
        ensures
            r == shm_resized_outcome(old(self)@).1,
            !(r is Fail) ==> final(self)@ == shm_resized_outcome(old(self)@).0,
            final(self).wf(),
    {
        let ghost v = self@;
        match self.state.status {
            ClientStatus::Resizing(1) => {},
            _ => return Step::Fail(ClientFailure::OutOfSequence),
        }
        if let Some(failure) = self.resize_check() {
            return Step::Fail(failure);
        }
        let mut surface_bufs = self.surface_buffers.unwrap();
        // Resize the shared memory pool
        let (old_size, new_size) = surface_bufs.resize(self.window_width, self.window_height);
        self.surface_buffers = Some(surface_bufs);
        // Let wayland know it has been resized (if it increased)
        if new_size > old_size {
            self.conn.wl_shm_pool_resize(self.interfaces.wl_shm_pool, new_size as u32);
        }
        self.state.status = ClientStatus::Resizing(2);
        proof {
            assert(self@.buffers == shm_resized_outcome(v).0.buffers);
        }
        self.answer_ping();
        Step::Continue
    }

    /// Whether the buffers can be resized now, and if not, why.
    fn resize_check(&self) -> (r: Option<ClientFailure>)
        ensures
            r == resize_check(self@),
    {
        match self.surface_buffers {
            None => Some(ClientFailure::OutOfSequence),
            Some(sb) => if !(sb.buf_1_free && sb.buf_2_free) {
                Some(ClientFailure::BuffersBusy)
            } else if !ShmGeometry::fits(self.window_width, self.window_height) {
                Some(ClientFailure::ShmTooLarge)
            } else {
                None
            },
        }
    }
}

} // verus!

verus! {

impl WaylandClient {
    /// One stage of resizing the buffers after the window changed size.
    fn resize_stage(&mut self, stage: u32) -> (r: Step)
        requires
            old(self).wf(),
            old(self)@.buffers is Some,
        ensures
            r == resize_outcome(old(self)@, stage).1,
            !(r is Fail) ==> final(self)@ == resize_outcome(old(self)@, stage).0,
            final(self).wf(),
    {
        let ghost v = self@;
        let mut surface_bufs = self.surface_buffers.unwrap();
        if stage == 0 {
            // Destroy existing `wl_buffer`s
            self.conn.wl_buffer_destroy(self.interfaces.wl_buffer_1);
            self.conn.wl_buffer_destroy(self.interfaces.wl_buffer_2);
            self.state.status = ClientStatus::Resizing(1);
        } else if stage == 1 {
            let old_size = surface_bufs.shm.size;
            return match self.resize_check() {
                Some(failure) => Step::Fail(failure),
                None => {
                    let mut resized = surface_bufs;
                    let (_, new_size) = resized.resize(self.window_width, self.window_height);
                    Step::ResizeShm { old_size, new_size }
                },
            };
        } else if stage == 2 {
            if self.conn.last_obj_id() > u32::MAX - 2 {
                return Step::Fail(ClientFailure::IdsExhausted);
            }
            // Create new `wl_buffer`s
            self.interfaces.wl_buffer_1 = self.conn.wl_shm_pool_create_buffer(
                self.interfaces.wl_shm_pool,
                0,
                surface_bufs.width,
                surface_bufs.height,
                surface_bufs.shm.stride,
                wl_shm::FORMAT_ARGB888,
            );
            self.interfaces.wl_buffer_2 = self.conn.wl_shm_pool_create_buffer(
                self.interfaces.wl_shm_pool,
                (surface_bufs.shm.size / 2) as u32,
                surface_bufs.width,
                surface_bufs.height,
                surface_bufs.shm.stride,
                wl_shm::FORMAT_ARGB888,
            );
            surface_bufs.set_ids(self.interfaces.wl_buffer_1, self.interfaces.wl_buffer_2);
            self.surface_buffers = Some(surface_bufs);
            self.state.status = ClientStatus::Resizing(3);
        } else {
            self.state.status = ClientStatus::Drawing;
        }
        self.answer_ping();
        Step::Continue
    }

    /// Destroys every object the client made, lets go of the buffers and moves on to exiting.
    fn close(&mut self) -> (r: Step)
        requires
            old(self).wf(),
        ensures
            r == close_outcome(old(self)@).1,
            final(self)@ == close_outcome(old(self)@).0,
            final(self).wf(),
    {
        let ghost v = self@;
        self.conn.xdg_toplevel_destroy(self.interfaces.xdg_toplevel);
        self.conn.xdg_surface_destroy(self.interfaces.xdg_surface);
        self.conn.wl_surface_destroy(self.interfaces.wl_surface);
        if let Some(bufs) = self.surface_buffers {
            self.conn.wl_buffer_destroy(bufs.buf_1_id);
            self.conn.wl_buffer_destroy(bufs.buf_2_id);
        }
        self.conn.wl_shm_pool_destroy(self.interfaces.wl_shm_pool);
        self.conn.wl_shm_release(self.interfaces.wl_shm);
        self.conn.xdg_wm_base_destroy(self.interfaces.xdg_wm_base);
        self.surface_buffers = None;
        self.state.status = ClientStatus::Exiting;
        self.answer_ping();
        Step::ReleaseShm
    }

    /// A waiting stage: once no event is being handled, moves on to `next` when no error was
    /// reported, or asks to exit with status 1.
    fn gate(&mut self, event_handling_in_progress: bool, next: ClientStatus) -> (r: Step)
        requires
            old(self).wf(),
        ensures
            r == gate_outcome(old(self)@, event_handling_in_progress, next).1,
            final(self)@ == gate_outcome(old(self)@, event_handling_in_progress, next).0,
            final(self).wf(),
    {
        let ghost v = self@;
        if !event_handling_in_progress {
            if self.state.pending_errors.len() == 0 {
                self.state.status = next;
            } else {
                return Step::Exit(1);
            }
        }
        self.answer_ping();
        Step::Continue
    }

    /// Asks the display for the registry.
    fn get_registry(&mut self) -> (r: Step)
        requires
            old(self).wf(),
            old(self)@.status == ClientStatus::Connected,
        ensures
            r == update_outcome(old(self)@, false, Seq::empty()).1,
            !(r is Fail) ==> final(self)@ == update_outcome(old(self)@, false, Seq::empty()).0,
            final(self).wf(),
    {
        let ghost v = self@;
        if self.conn.last_obj_id() == u32::MAX {
            return Step::Fail(ClientFailure::IdsExhausted);
        }
        self.interfaces.wl_registry = self.conn.wl_display_get_registry();
        self.state.status = ClientStatus::GotRegistry;
        self.answer_ping();
        Step::Continue
    }

    /// Binds the globals the client needs and then waits for the formats.
    fn bind_step(&mut self) -> (r: Step)
        requires
            old(self).wf(),
        ensures
            match bind_interfaces_outcome(old(self)@) {
                Err(e) => r == Step::Fail(e),
                Ok(w) => r == Step::Continue && final(self)@ == pong_step(
                    ClientView { status: ClientStatus::AwaitingFormats, ..w },
                ),
            },
            final(self).wf(),
    {
        match self.bind_interfaces() {
            Ok(()) => {},
            Err(e) => return Step::Fail(e),
        }
        let ghost w = self@;
        self.state.status = ClientStatus::AwaitingFormats;
        self.answer_ping();
        Step::Continue
    }

    /// Creates the surface and then waits for its first configure.
    fn surface_step(&mut self) -> (r: Step)
        requires
            old(self).wf(),
        ensures
            match create_surface_outcome(old(self)@) {
                Err(e) => r == Step::Fail(e),
                Ok(w) => r == Step::Continue && final(self)@ == pong_step(
                    ClientView { status: ClientStatus::AwaitingInitialConfigure, ..w },
                ),
            },
            final(self).wf(),
    {
        match self.create_surface() {
            Ok(()) => {},
            Err(e) => return Step::Fail(e),
        }
        let ghost w = self@;
        self.state.status = ClientStatus::AwaitingInitialConfigure;
        self.answer_ping();
        Step::Continue
    }

    /// Draws once no event is being handled and no error was reported, then idles.
    fn draw_step(&mut self, event_handling_in_progress: bool, pixels: &mut [u8]) -> (r: Step)
        requires
            old(self).wf(),
            old(self)@.status == ClientStatus::Drawing,
            old(self)@.buffers matches Some(sb) ==> old(pixels)@.len() == sb.shm.size,
        ensures
            r == update_outcome(old(self)@, event_handling_in_progress, old(pixels)@).1,
            !(r is Fail) ==> final(self)@ == update_outcome(
                old(self)@,
                event_handling_in_progress,
                old(pixels)@,
            ).0,
            !(r is Fail) ==> final(pixels)@ == update_outcome(
                old(self)@,
                event_handling_in_progress,
                old(pixels)@,
            ).2,
            final(self).wf(),
    {
        if !event_handling_in_progress {
            if self.state.pending_errors.len() == 0 {
                // To ensure no error events are found before drawing
                match self.draw(pixels) {
                    Ok(()) => {},
                    Err(e) => return Step::Fail(e),
                }
                let ghost w = self@;
                self.state.status = ClientStatus::Idle;
            } else {
                return Step::Exit(1);
            }
        }
        self.answer_ping();
        Step::Continue
    }

    /// Acknowledges a pending configure while idle.
    fn idle_step(&mut self) -> (r: Step)
        requires
            old(self).wf(),
            old(self)@.status == ClientStatus::Idle,
        ensures
            r == update_outcome(old(self)@, false, Seq::empty()).1,
            final(self)@ == update_outcome(old(self)@, false, Seq::empty()).0,
            final(self).wf(),
    {
        let ghost v = self@;
        if let Some(serial) = self.state.pending_configure {
            self.state.pending_configure = None;
            self.conn.xdg_surface_ack_configure(self.interfaces.xdg_surface, serial);
        }
        self.answer_ping();
        Step::Continue
    }

    /// Takes the client one step further in its life, given whether events are still being
    /// handled, and returns what the application has to do next. `pixels` is the memory of the
    /// client's buffers, drawn into when the client draws.
    pub fn update_state(&mut self, event_handling_in_progress: bool, pixels: &mut [u8]) -> (r: Step)
        requires
            old(self).wf(),
            old(self)@.buffers matches Some(sb) ==> old(pixels)@.len() == sb.shm.size,
        ensures
            r == update_outcome(old(self)@, event_handling_in_progress, old(pixels)@).1,
            !(r is Fail) ==> final(self)@ == update_outcome(
                old(self)@,
                event_handling_in_progress,
                old(pixels)@,
            ).0,
            !(r is Fail) ==> final(pixels)@ == update_outcome(
                old(self)@,
                event_handling_in_progress,
                old(pixels)@,
            ).2,
            final(self).wf(),
    {
        match self.state.status {
            ClientStatus::Connected => self.get_registry(),
            ClientStatus::ReadingGlobalInterfaces => self.gate(
                event_handling_in_progress,
                ClientStatus::BindingInterfaces,
            ),
            ClientStatus::BindingInterfaces => self.bind_step(),
            ClientStatus::ReadingFormats => self.gate(
                event_handling_in_progress,
                ClientStatus::CreatingSurface,
            ),
            ClientStatus::CreatingSurface => self.surface_step(),
            ClientStatus::GotInitialConfigure => self.gate(
                event_handling_in_progress,
                ClientStatus::CreatingBuffers,
            ),
            ClientStatus::CreatingBuffers => {
                let width = self.window_width;
                if !ShmGeometry::fits(width, width) {
                    return Step::Fail(ClientFailure::ShmTooLarge);
                }
                if self.conn.last_obj_id() > u32::MAX - 3 {
                    return Step::Fail(ClientFailure::IdsExhausted);
                }
                Step::AllocateShm(ShmGeometry::new(width, width))
            },
            ClientStatus::Drawing => self.draw_step(event_handling_in_progress, pixels),
            ClientStatus::Resizing(stage) => {
                if !event_handling_in_progress {
                    if self.state.pending_errors.len() == 0 {
                        if self.surface_buffers.is_some() {
                            return self.resize_stage(stage);
                        }
                    } else {
                        return Step::Exit(1);
                    }
                }
                self.answer_ping();
                Step::Continue
            },
            ClientStatus::Idle => self.idle_step(),
            ClientStatus::Closing => self.close(),
            ClientStatus::Exiting => {
                if !event_handling_in_progress {
                    if self.state.pending_errors.len() == 0 {
                        return Step::Exit(0);
                    } else {
                        return Step::Exit(1);
                    }
                }
                self.answer_ping();
                Step::Continue
            },
            _ => {
                self.answer_ping();
                Step::Continue
            },
        }
    }
}

} // verus!

verus! {

/// Handling events consumes every complete event and loses no byte: what stays in the
/// receive buffer is exactly what followed the complete events, and it holds no complete event.
pub proof fn lemma_handled_leaves_tail(v: ClientView)
    ensures
        handle_outcome(v) matches Ok(w) ==> {
            &&& w.received == incomplete_tail(v.received)
            &&& complete_messages(w.received).len() == 0
            &&& w.received.len() + w.free_space == v.received.len() + v.free_space
        },
{
    lemma_complete_len(v.received);
    lemma_tail_incomplete(v.received);
    lemma_complete_none(incomplete_tail(v.received));
}

/// The buffers after the back one was brought to the front.
pub open spec fn committed(sb: SurfaceBuffers) -> SurfaceBuffers {
    if sb.first_buf_front {
        SurfaceBuffers { first_buf_front: false, buf_2_free: false, ..sb }
    } else {
        SurfaceBuffers { first_buf_front: true, buf_1_free: false, ..sb }
    }
}

/// Committing draws alternates between the two buffers: the buffer brought to the front is
/// the one that was in the back, it is then busy, the other one becomes the back buffer, and
/// two commits in a row bring forward both buffers, one after the other.
pub proof fn lemma_commit_alternates(sb: SurfaceBuffers)
    ensures
        committed(sb).first_buf_front != sb.first_buf_front,
        !committed(sb).back_free() || committed(sb).back_id() != sb.back_id() || sb.buf_1_id
            == sb.buf_2_id,
        committed(sb).back_id() == (if sb.first_buf_front {
            sb.buf_1_id
        } else {
            sb.buf_2_id
        }),
        committed(committed(sb)).first_buf_front == sb.first_buf_front,
        !committed(committed(sb)).buf_1_free,
        !committed(committed(sb)).buf_2_free,
{
}

/// The buffer with id `id` is held by the compositor.
pub open spec fn busy(sb: SurfaceBuffers, id: u32) -> bool {
    ||| id == sb.buf_1_id && !sb.buf_1_free
    ||| id == sb.buf_2_id && !sb.buf_2_free
}

/// A buffer brought to the front stays held until it is released: committing makes it busy,
/// later commits and releases of the other buffer keep a busy buffer busy, and a busy buffer is
/// never the released back buffer that drawing needs. Commits and releases keep the ids, so
/// the two buffers stay distinct.
pub proof fn lemma_committed_stays_busy(sb: SurfaceBuffers, id: u32, other: u32)
    requires
        sb.buf_1_id != sb.buf_2_id,
    ensures
        busy(committed(sb), sb.back_id()),
        busy(sb, id) ==> busy(committed(sb), id),
        busy(sb, id) && other != id && (other == sb.buf_1_id || other == sb.buf_2_id) ==> busy(
            released(sb, other),
            id,
        ),
        busy(sb, id) ==> !(sb.back_free() && sb.back_id() == id),
        committed(sb).buf_1_id == sb.buf_1_id && committed(sb).buf_2_id == sb.buf_2_id,
        released(sb, other).buf_1_id == sb.buf_1_id && released(sb, other).buf_2_id == sb.buf_2_id,
{
}

/// After a step that lets the application go on, no ping is left unanswered, and a ping that
/// was pending is answered by the last queued request.
pub proof fn lemma_ping_answered(v: ClientView, in_progress: bool, pixels: Seq<u8>)
    ensures
        ({
            let (after, step, _) = update_outcome(v, in_progress, pixels);
            (step == Step::Continue || step == Step::ReleaseShm) ==> {
                &&& after.pending_ping is None
                &&& v.pending_ping matches Some(serial) ==> after.sent.last() == request(
                    after.interfaces.xdg_wm_base,
                    xdg_wm_base::opcodes::PONG,
                    ne_u32_bytes(serial),
                )
            }
        }),
{
    match v.status {
        ClientStatus::BindingInterfaces => {
            reveal(bind_interfaces_outcome);
        },
        ClientStatus::CreatingSurface => {
            reveal(create_surface_outcome);
        },
        ClientStatus::Drawing => {},
        ClientStatus::Resizing(stage) => {},
        ClientStatus::Closing => {},
        _ => {},
    }
}

} // verus!

verus! {

/// A receive buffer that holds exactly one message splits into that message alone, with
/// nothing malformed after it.
proof fn lemma_single_message(buf: Seq<u8>, object_id: u32, opcode: u16, args: Seq<u8>)
    requires
        buf == message_bytes(object_id, opcode, args),
        8 + args.len() <= u16::MAX,
    ensures
        complete_messages(buf) == seq![
            (WaylandHeader { object_id, opcode, msg_size: (8 + args.len()) as usize }, args),
        ],
        complete_len(buf) == buf.len(),
        !ends_in_malformed_header(buf),
{
    let empty = Seq::<u8>::empty();
    assert(buf + empty =~= buf);
    crate::wayland::reader::lemma_message_frames(object_id, opcode, args, empty);
    lemma_complete_none(empty);
    assert(seq![
        (WaylandHeader { object_id, opcode, msg_size: (8 + args.len()) as usize }, args),
    ] + complete_messages(empty) =~= seq![
        (WaylandHeader { object_id, opcode, msg_size: (8 + args.len()) as usize }, args),
    ]);
    crate::wayland::codec::lemma_message_roundtrip(object_id, opcode, args, empty);
}

/// Handling a buffer with one message is handling that one event, then emptying the buffer.
proof fn lemma_handle_single(v: ClientView, object_id: u32, opcode: u16, args: Seq<u8>)
    requires
        v.received == message_bytes(object_id, opcode, args),
        8 + args.len() <= u16::MAX,
    ensures
        ({
            let h = WaylandHeader { object_id, opcode, msg_size: (8 + args.len()) as usize };
            handle_outcome(v) == match event_step(v, h, args) {
                None => Err(ClientFailure::MalformedEvent),
                Some(w) => Ok(
                    ClientView {
                        received: Seq::<u8>::empty(),
                        free_space: v.free_space + v.received.len(),
                        ..w
                    },
                ),
            }
        }),
{
    let h = WaylandHeader { object_id, opcode, msg_size: (8 + args.len()) as usize };
    lemma_single_message(v.received, object_id, opcode, args);
    let msgs = complete_messages(v.received);
    assert(msgs.subrange(1, msgs.len() as int) =~= Seq::<(WaylandHeader, Seq<u8>)>::empty());
    assert(v.received.subrange(v.received.len() as int, v.received.len() as int) =~= Seq::<
        u8,
    >::empty());
    match event_step(v, h, args) {
        None => {},
        Some(w) => {
            assert(events_step(w, Seq::<(WaylandHeader, Seq<u8>)>::empty()) == Some(w));
        },
    }
}

/// The arguments of `xdg_toplevel.configure` for a window of `width` by `height` with the
/// state bytes `states`.
pub open spec fn configure_args(width: u32, height: u32, states: Seq<u8>) -> Seq<u8> {
    ne_u32_bytes(width) + ne_u32_bytes(height) + ne_u32_bytes(states.len() as u32) + states
}

/// A toplevel configure after the first one resizes: handling it sets the window to the
/// configured width and height, and when either differs from the current window size the
/// client starts resizing its buffers from stage 0; when both are the same it keeps its
/// status. The toplevel's id is taken to be distinct from the objects whose events come
/// first.
#[verifier::spinoff_prover]
pub proof fn lemma_configure_resizes(v: ClientView, width: u32, height: u32, states: Seq<u8>)
    requires
        v.received == message_bytes(
            v.interfaces.xdg_toplevel,
            xdg_toplevel::events::CONFIGURE,
            configure_args(width, height, states),
        ),
        states.len() % 4 == 0,
        states.len() + 20 <= u16::MAX,
        v.status != ClientStatus::AwaitingInitialConfigure,
        v.interfaces.xdg_toplevel != v.interfaces.wl_registry,
        v.interfaces.xdg_toplevel != wl_display::OBJECT_ID,
        v.interfaces.xdg_toplevel != v.interfaces.wl_shm,
        v.interfaces.xdg_toplevel != v.interfaces.xdg_wm_base,
        v.interfaces.xdg_toplevel != v.interfaces.xdg_surface,
    ensures
        handle_outcome(v) matches Ok(w) && {
            &&& w.window_width == width
            &&& w.window_height == height
            &&& (width != v.window_width || height != v.window_height) ==> w.status
                == ClientStatus::Resizing(0)
            &&& (width == v.window_width && height == v.window_height) ==> w.status == v.status
            &&& w.received.len() == 0
            &&& w.errors == v.errors
            &&& w.buffers == v.buffers
        },
{
    let args = configure_args(width, height, states);
    crate::bytes::lemma_u32_ne_roundtrip(width);
    crate::bytes::lemma_u32_ne_roundtrip(height);
    crate::bytes::lemma_u32_ne_roundtrip(states.len() as u32);
    assert(args.subrange(0, 4) =~= ne_u32_bytes(width));
    assert(args.subrange(4, 8) =~= ne_u32_bytes(height));
    let arr = args.subrange(8, args.len() as int);
    assert(arr.subrange(0, 4) =~= ne_u32_bytes(states.len() as u32));
    assert(wl_array_ok(arr));
    lemma_handle_single(v, v.interfaces.xdg_toplevel, xdg_toplevel::events::CONFIGURE, args);
}

/// The arguments of `wl_display.error` for an error of `code` on `object_id` with the message
/// `msg`.
pub open spec fn error_args(object_id: u32, code: u32, msg: Seq<u8>) -> Seq<u8> {
    ne_u32_bytes(object_id) + ne_u32_bytes(code) + crate::wayland::codec::wl_string_bytes(msg)
}

/// Every error the display reports is kept, whatever object it names: handling a
/// well-formed `wl_display.error` event appends its object id, code and message to the
/// client's errors and changes nothing else the client knows. The registry is taken not to
/// have the display's id.
#[verifier::spinoff_prover]
pub proof fn lemma_display_error_kept(v: ClientView, object_id: u32, code: u32, msg: Seq<u8>)
    requires
        v.received == message_bytes(
            wl_display::OBJECT_ID,
            wl_display::events::ERROR,
            error_args(object_id, code, msg),
        ),
        crate::wayland::codec::no_nul(msg),
        msg.len() + 24 <= u16::MAX,
        v.interfaces.wl_registry != wl_display::OBJECT_ID,
    ensures
        handle_outcome(v) matches Ok(w) && {
            &&& w.errors == v.errors.push((object_id, code, msg))
            &&& w.status == v.status
            &&& w.interfaces == v.interfaces
            &&& w.buffers == v.buffers
            &&& w.received.len() == 0
        },
{
    let args = error_args(object_id, code, msg);
    let empty = Seq::<u8>::empty();
    crate::bytes::lemma_u32_ne_roundtrip(object_id);
    crate::bytes::lemma_u32_ne_roundtrip(code);
    crate::wayland::codec::lemma_wl_string_roundtrip(msg, empty);
    let s = crate::wayland::codec::wl_string_bytes(msg);
    assert(s + empty =~= s);
    assert(args.subrange(0, 4) =~= ne_u32_bytes(object_id));
    assert(args.subrange(4, 8) =~= ne_u32_bytes(code));
    assert(args.subrange(8, args.len() as int) =~= s);
    assert(display_error_ok(args));
    assert(display_error_msg(args) =~= msg);
    lemma_handle_single(v, wl_display::OBJECT_ID, wl_display::events::ERROR, args);
}

/// The waiting stages wait: while events are still being handled, a client reading the
/// globals, reading the formats, or holding its first configure keeps its status and goes on.
/// Once no event is being handled it moves to binding, creating the surface, or creating the
/// buffers if no error was reported, and otherwise asks to exit with status 1.
#[verifier::spinoff_prover]
pub proof fn lemma_waiting_stages_wait(v: ClientView, in_progress: bool, pixels: Seq<u8>)
    requires
        v.status == ClientStatus::ReadingGlobalInterfaces || v.status
            == ClientStatus::ReadingFormats || v.status == ClientStatus::GotInitialConfigure,
    ensures
        ({
            let (w, step, _) = update_outcome(v, in_progress, pixels);
            let next = if v.status == ClientStatus::ReadingGlobalInterfaces {
                ClientStatus::BindingInterfaces
            } else if v.status == ClientStatus::ReadingFormats {
                ClientStatus::CreatingSurface
            } else {
                ClientStatus::CreatingBuffers
            };
            &&& in_progress ==> step == Step::Continue && w.status == v.status
            &&& !in_progress && v.errors.len() == 0 ==> step == Step::Continue && w.status == next
            &&& !in_progress && v.errors.len() > 0 ==> step == Step::Exit(1) && w.status
                == v.status
            &&& w.buffers == v.buffers
            &&& w.interfaces == v.interfaces
        }),
{
    let next = if v.status == ClientStatus::ReadingGlobalInterfaces {
        ClientStatus::BindingInterfaces
    } else if v.status == ClientStatus::ReadingFormats {
        ClientStatus::CreatingSurface
    } else {
        ClientStatus::CreatingBuffers
    };
    assert(update_outcome(v, in_progress, pixels) == ({
        let (w, s) = gate_outcome(v, in_progress, next);
        (w, s, pixels)
    }));
}

/// Finishing a resize lays the buffers out for the window, whether the pool grew or not:
/// their width and height become the window's, their stride four bytes per window column,
/// the first buffer comes to the front, and the pool only grows, to the double buffer's size
/// when that is larger, telling the compositor its new size exactly then.
#[verifier::spinoff_prover]
pub proof fn lemma_resize_relayouts(v: ClientView)
    requires
        v.status == ClientStatus::Resizing(1),
        v.buffers is Some,
        v.buffers.unwrap().buf_1_free,
        v.buffers.unwrap().buf_2_free,
        double_buffer_fits(v.window_width, v.window_height),
    ensures
        ({
            let (w, step) = shm_resized_outcome(v);
            let sb = v.buffers.unwrap();
            let need = 8 * v.window_width * v.window_height;
            &&& step == Step::Continue
            &&& w.status == ClientStatus::Resizing(2)
            &&& w.buffers matches Some(nb) && {
                &&& nb.width == v.window_width
                &&& nb.height == v.window_height
                &&& nb.shm.width == v.window_width
                &&& nb.shm.height == v.window_height
                &&& nb.shm.stride == 4 * v.window_width
                &&& nb.shm.size == if need > sb.shm.size {
                    need
                } else {
                    sb.shm.size as int
                }
                &&& nb.first_buf_front
                &&& nb.buf_1_id == sb.buf_1_id
                &&& nb.buf_2_id == sb.buf_2_id
            }
            &&& v.pending_ping is None && need > sb.shm.size ==> w.sent == v.sent.push(
                request(
                    v.interfaces.wl_shm_pool,
                    wl_shm_pool::opcodes::RESIZE,
                    ne_u32_bytes(need as u32),
                ),
            )
            &&& v.pending_ping is None && need <= sb.shm.size ==> w.sent == v.sent
        }),
{
    assert(8 * v.window_width * v.window_height == double_buffer_size(
        v.window_width,
        v.window_height,
    )) by (nonlinear_arith);
}


/// A ping is remembered to be answered: handling `xdg_wm_base.ping` records its serial as the
/// pending ping and changes nothing else the client knows. The window manager base's id is
/// taken to be distinct from the objects whose events come first.
#[verifier::spinoff_prover]
pub proof fn lemma_ping_recorded(v: ClientView, serial: u32)
    requires
        v.received == message_bytes(
            v.interfaces.xdg_wm_base,
            xdg_wm_base::events::PING,
            ne_u32_bytes(serial),
        ),
        v.interfaces.xdg_wm_base != v.interfaces.wl_registry,
        v.interfaces.xdg_wm_base != wl_display::OBJECT_ID,
        v.interfaces.xdg_wm_base != v.interfaces.wl_shm,
    ensures
        handle_outcome(v) matches Ok(w) && {
            &&& w.pending_ping == Some(serial)
            &&& w.status == v.status
            &&& w.pending_configure == v.pending_configure
            &&& w.errors == v.errors
            &&& w.received.len() == 0
        },
{
    crate::bytes::lemma_u32_ne_roundtrip(serial);
    assert(ne_u32_bytes(serial).subrange(0, 4) =~= ne_u32_bytes(serial));
    lemma_handle_single(v, v.interfaces.xdg_wm_base, xdg_wm_base::events::PING, ne_u32_bytes(serial));
}

/// A surface configure is remembered to be acknowledged: handling `xdg_surface.configure`
/// records its serial as the pending configure and changes nothing else the client knows. The
/// xdg surface's id is taken to be distinct from the objects whose events come first.
#[verifier::spinoff_prover]
pub proof fn lemma_surface_configure_recorded(v: ClientView, serial: u32)
    requires
        v.received == message_bytes(
            v.interfaces.xdg_surface,
            xdg_surface::events::CONFIGURE,
            ne_u32_bytes(serial),
        ),
        v.interfaces.xdg_surface != v.interfaces.wl_registry,
        v.interfaces.xdg_surface != wl_display::OBJECT_ID,
        v.interfaces.xdg_surface != v.interfaces.wl_shm,
        v.interfaces.xdg_surface != v.interfaces.xdg_wm_base,
    ensures
        handle_outcome(v) matches Ok(w) && {
            &&& w.pending_configure == Some(serial)
            &&& w.status == v.status
            &&& w.pending_ping == v.pending_ping
            &&& w.errors == v.errors
            &&& w.received.len() == 0
        },
{
    crate::bytes::lemma_u32_ne_roundtrip(serial);
    assert(ne_u32_bytes(serial).subrange(0, 4) =~= ne_u32_bytes(serial));
    lemma_handle_single(
        v,
        v.interfaces.xdg_surface,
        xdg_surface::events::CONFIGURE,
        ne_u32_bytes(serial),
    );
}

/// Closing the window is obeyed: handling `xdg_toplevel.close` moves the client to closing
/// and changes nothing else it knows. The toplevel's id is taken to be distinct from the
/// objects whose events come first.
#[verifier::spinoff_prover]
pub proof fn lemma_close_requested(v: ClientView)
    requires
        v.received == message_bytes(
            v.interfaces.xdg_toplevel,
            xdg_toplevel::events::CLOSE,
            Seq::<u8>::empty(),
        ),
        v.interfaces.xdg_toplevel != v.interfaces.wl_registry,
        v.interfaces.xdg_toplevel != wl_display::OBJECT_ID,
        v.interfaces.xdg_toplevel != v.interfaces.wl_shm,
        v.interfaces.xdg_toplevel != v.interfaces.xdg_wm_base,
        v.interfaces.xdg_toplevel != v.interfaces.xdg_surface,
    ensures
        handle_outcome(v) matches Ok(w) && {
            &&& w.status == ClientStatus::Closing
            &&& w.buffers == v.buffers
            &&& w.window_width == v.window_width
            &&& w.window_height == v.window_height
            &&& w.errors == v.errors
            &&& w.received.len() == 0
        },
{
    lemma_handle_single(v, v.interfaces.xdg_toplevel, xdg_toplevel::events::CLOSE, Seq::empty());
}

/// Announced formats move the client on: handling a `wl_shm.format` event moves it to reading
/// the formats and changes nothing else it knows. The shm object's id is taken to be distinct
/// from the registry's and the display's.
#[verifier::spinoff_prover]
pub proof fn lemma_format_read(v: ClientView, format: u32)
    requires
        v.received == message_bytes(v.interfaces.wl_shm, wl_shm::events::FORMAT, ne_u32_bytes(format)),
        v.interfaces.wl_shm != v.interfaces.wl_registry,
        v.interfaces.wl_shm != wl_display::OBJECT_ID,
    ensures
        handle_outcome(v) matches Ok(w) && {
            &&& w.status == ClientStatus::ReadingFormats
            &&& w.interfaces == v.interfaces
            &&& w.errors == v.errors
            &&& w.received.len() == 0
        },
{
    crate::bytes::lemma_u32_ne_roundtrip(format);
    lemma_handle_single(v, v.interfaces.wl_shm, wl_shm::events::FORMAT, ne_u32_bytes(format));
}

/// A released buffer can be drawn into again: handling `wl_buffer.release` for one of the two
/// buffers marks exactly that buffer free and leaves the other as it was. The buffers' ids are
/// taken to be those the client created, distinct from each other and from the objects whose
/// events come first.
#[verifier::spinoff_prover]
pub proof fn lemma_release_frees(v: ClientView, second: bool)
    requires
        v.buffers matches Some(sb) && sb.buf_1_id == v.interfaces.wl_buffer_1 && sb.buf_2_id
            == v.interfaces.wl_buffer_2,
        v.interfaces.wl_buffer_1 != v.interfaces.wl_buffer_2,
        ({
            let id = if second {
                v.interfaces.wl_buffer_2
            } else {
                v.interfaces.wl_buffer_1
            };
            &&& v.received == message_bytes(id, wl_buffer::events::RELEASE, Seq::<u8>::empty())
            &&& id != v.interfaces.wl_registry
            &&& id != wl_display::OBJECT_ID
            &&& id != v.interfaces.wl_shm
            &&& id != v.interfaces.xdg_wm_base
            &&& id != v.interfaces.xdg_surface
            &&& id != v.interfaces.xdg_toplevel
        }),
    ensures
        handle_outcome(v) matches Ok(w) && {
            let sb = v.buffers.unwrap();
            &&& w.buffers matches Some(nb) && {
                &&& second ==> nb.buf_2_free && nb.buf_1_free == sb.buf_1_free
                &&& !second ==> nb.buf_1_free && nb.buf_2_free == sb.buf_2_free
                &&& nb.first_buf_front == sb.first_buf_front
                &&& nb.buf_1_id == sb.buf_1_id
                &&& nb.buf_2_id == sb.buf_2_id
                &&& nb.shm == sb.shm
            }
            &&& w.status == v.status
            &&& w.received.len() == 0
        },
{
    let id = if second {
        v.interfaces.wl_buffer_2
    } else {
        v.interfaces.wl_buffer_1
    };
    lemma_handle_single(v, id, wl_buffer::events::RELEASE, Seq::empty());
}

/// The arguments of `wl_registry.global` announcing `interface` under the unique `name`, at
/// `version`.
pub open spec fn global_args(name: u32, interface: Seq<u8>, version: u32) -> Seq<u8> {
    ne_u32_bytes(name) + crate::wayland::codec::wl_string_bytes(interface) + ne_u32_bytes(version)
}

/// Well-formed `wl_registry.global` arguments read back as the announced name, interface
/// and version.
proof fn lemma_global_args_parse(name: u32, interface: Seq<u8>, version: u32)
    requires
        crate::wayland::codec::no_nul(interface),
        interface.len() + 24 <= u16::MAX,
    ensures
        registry_global_ok(global_args(name, interface, version)),
        spec_u32_at(global_args(name, interface, version), 0) == name,
        registry_global_name(global_args(name, interface, version)) == interface,
        registry_global_version(global_args(name, interface, version)) == version,
{
    let args = global_args(name, interface, version);
    let s = crate::wayland::codec::wl_string_bytes(interface);
    let tail = ne_u32_bytes(version);
    crate::bytes::lemma_u32_ne_roundtrip(name);
    crate::bytes::lemma_u32_ne_roundtrip(version);
    crate::wayland::codec::lemma_wl_string_roundtrip(interface, tail);
    let sub = args.subrange(4, args.len() as int);
    assert(sub =~= s + tail);
    assert(args.subrange(0, 4) =~= ne_u32_bytes(name));
    let n = crate::wayland::codec::wl_string_size(sub);
    assert(registry_global_name(args) =~= interface);
    assert(args.subrange(4 + crate::bytes::roundup4(n) + 4, 4 + crate::bytes::roundup4(n) + 8)
        =~= tail);
}

/// Recording an interface keeps it, keeps the entries of other interfaces, and grows the
/// list only for a new interface name.
proof fn lemma_insert_interface_keeps(ads: Seq<(u32, Seq<u8>, u32)>, info: (u32, Seq<u8>, u32))
    ensures
        insert_interface(ads, info).contains(info),
        forall|i: int|
            0 <= i < ads.len() && ads[i].1 != info.1 ==> insert_interface(ads, info).contains(
                #[trigger] ads[i],
            ),
        insert_interface(ads, info).len() == ads.len() + if exists|i: int|
            0 <= i < ads.len() && #[trigger] ads[i].1 == info.1 {
            0int
        } else {
            1int
        },
{
    if exists|i: int| 0 <= i < ads.len() && #[trigger] ads[i].1 == info.1 {
        let c = choose|i: int| 0 <= i < ads.len() && #[trigger] ads[i].1 == info.1;
        let nw = ads.update(c, info);
        assert(nw[c] == info);
        assert forall|i: int| 0 <= i < ads.len() && ads[i].1 != info.1 implies nw.contains(
            #[trigger] ads[i],
        ) by {
            assert(nw[i] == ads[i]);
        }
    } else {
        let nw = ads.push(info);
        assert(nw[ads.len() as int] == info);
        assert forall|i: int| 0 <= i < ads.len() && ads[i].1 != info.1 implies nw.contains(
            #[trigger] ads[i],
        ) by {
            assert(nw[i] == ads[i]);
        }
    }
}

/// An announced global is remembered, one per interface name: handling `wl_registry.global`
/// keeps an entry with its unique name, interface name and version, keeps every entry of
/// another interface, adds one entry only when the interface was not announced before, and
/// moves the client to reading the globals. The registry's id is taken not to be the
/// display's.
#[verifier::spinoff_prover]
pub proof fn lemma_global_recorded(v: ClientView, name: u32, interface: Seq<u8>, version: u32)
    requires
        v.received == message_bytes(
            v.interfaces.wl_registry,
            wl_registry::events::GLOBAL,
            global_args(name, interface, version),
        ),
        crate::wayland::codec::no_nul(interface),
        interface.len() + 24 <= u16::MAX,
    ensures
        handle_outcome(v) matches Ok(w) && {
            let known = exists|i: int| 0 <= i < v.advertised.len() && #[trigger] v.advertised[i].1 == interface;
            &&& w.advertised.contains((name, interface, version))
            &&& forall|i: int|
                0 <= i < v.advertised.len() && v.advertised[i].1 != interface
                    ==> w.advertised.contains(#[trigger] v.advertised[i])
            &&& w.advertised.len() == v.advertised.len() + if known { 0int } else { 1int }
            &&& w.status == ClientStatus::ReadingGlobalInterfaces
            &&& w.errors == v.errors
            &&& w.received.len() == 0
        },
{
    lemma_global_args_parse(name, interface, version);
    lemma_insert_interface_keeps(v.advertised, (name, interface, version));
    lemma_handle_single(
        v,
        v.interfaces.wl_registry,
        wl_registry::events::GLOBAL,
        global_args(name, interface, version),
    );
}

} // verus!
