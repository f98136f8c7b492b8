//! The layout of the shared-memory double buffer of ARGB8888 pixels.
use vstd::prelude::*;

verus! {

/// The bytes of two buffers of `width` by `height` pixels of four bytes each.
pub open spec fn double_buffer_size(width: u32, height: u32) -> int {
    4 * width * height * 2
}

/// A double buffer of `width` by `height` pixels can be described: its row stride fits a `u32`
/// and its size a `usize`.
pub open spec fn double_buffer_fits(width: u32, height: u32) -> bool {
    &&& 4 * width <= u32::MAX
    &&& double_buffer_size(width, height) <= usize::MAX
}

/// The sizes of an ARGB8888 formatted double buffer in shared memory. `size` is the size of the
/// memory behind it, which never shrinks.
#[derive(Debug, Clone, Copy, PartialEq, Eq)]
pub struct ShmGeometry {
    pub size: usize,
    pub height: u32,
    pub width: u32,
    pub stride: u32,
}

impl ShmGeometry {
    /// Tells whether a double buffer of `width` by `height` pixels can be described.
    pub fn fits(width: u32, height: u32) -> (b: bool)
        ensures
            b == double_buffer_fits(width, height),
    {
        match width.checked_mul(4) {
            None => false,
            Some(stride) => match (stride as usize).checked_mul(height as usize) {
                None => false,
                Some(one) => {
                    proof {
                        assert(one == 4 * width * height) by (nonlinear_arith)
                            requires
                                one == stride * height,
                                stride == width * 4,
                        ;
                    }
                    one.checked_mul(2).is_some()
                },
            },
        }
    }

    /// The layout of a fresh double buffer of `width` by `height` pixels.
    pub fn new(width: u32, height: u32) -> (g: Self)
        requires
            double_buffer_fits(width, height),
        ensures
            g.width == width,
            g.height == height,
            g.stride == 4 * width,
            g.size == double_buffer_size(width, height),
    {
        let stride = width * 4;
        proof {
            assert(stride * height <= 4 * width * height * 2) by (nonlinear_arith)
                requires
                    stride == width * 4,
            ;
            assert(stride * height * 2 == 4 * width * height * 2) by (nonlinear_arith)
                requires
                    stride == width * 4,
            ;
        }
        let size = (stride as usize) * (height as usize) * 2;
        ShmGeometry { size, stride, width, height }
    }

    /// Resizes the shared memory buffer and returns the old and the new sizes in bytes
    /// Increases the size of the shared memory if the new size is more then the old size.
    /// Changes the stride, height, and width in either case.
    ///
    /// Returns the old and the new size of the shared memory buffer in bytes
    pub fn resize(&mut self, width: u32, height: u32) -> (r: (usize, usize))
        requires
            double_buffer_fits(width, height),
        ensures
            r.0 == old(self).size,
            r.1 == final(self).size,
            final(self).size == if double_buffer_size(width, height) > old(self).size {
                double_buffer_size(width, height)
            } else {
                old(self).size as int
            },
            final(self).width == width,
            final(self).height == height,
            final(self).stride == 4 * width,
    {
        let fresh = ShmGeometry::new(width, height);
        let old_size = self.size;
        if fresh.size > self.size {
            self.size = fresh.size;
        }
        self.width = width;
        self.height = height;
        self.stride = fresh.stride;
        (old_size, self.size)
    }
}

} // verus!
