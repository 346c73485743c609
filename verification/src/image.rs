//! The model of a decoded raster image: a raw byte buffer together with
//! the layout data needed to locate each pixel's channels inside it.

use vstd::prelude::*;

verus! {

/// A decoded image. The buffer holds `height` rows of pixels; each row
/// starts `rowstride` bytes after the previous one and holds `width`
/// pixels of `channels` bytes each. `rowstride` may exceed
/// `width * channels` when rows carry alignment padding.
pub struct Image {
    pub width: usize,
    pub height: usize,
    pub channels: usize,
    pub rowstride: usize,
    pub data: Vec<u8>,
}

impl Image {
    /// Layout invariant: positive dimensions, an RGB or RGBA channel
    /// count, rows wide enough for the pixels they hold, and a buffer
    /// long enough for all the rows.
    pub open spec fn wf(self) -> bool {
        &&& 1 <= self.width
        &&& 1 <= self.height
        &&& (self.channels == 3 || self.channels == 4)
        &&& self.width * self.channels <= self.rowstride
        &&& self.height * self.rowstride <= self.data@.len()
    }

    /// Byte offset of channel `c` of the pixel at column `x`, row `y`.
    pub open spec fn offset_of(self, x: int, y: int, c: int) -> int {
        y * self.rowstride + x * self.channels + c
    }

    /// The byte stored for channel `c` of the pixel at column `x`, row `y`.
    pub open spec fn byte_at(self, x: int, y: int, c: int) -> u8 {
        self.data@[self.offset_of(x, y, c)]
    }

    /// The first three channels (red, green, blue) of the pixel at
    /// column `x`, row `y`. Any fourth channel is not part of this value.
    pub open spec fn rgb_at(self, x: int, y: int) -> (u8, u8, u8) {
        (self.byte_at(x, y, 0), self.byte_at(x, y, 1), self.byte_at(x, y, 2))
    }

    /// Wraps a buffer as an image after validating the layout against
    /// the buffer's length; `None` exactly when the fields break `wf`.
    pub fn new(width: usize, height: usize, channels: usize, rowstride: usize, data: Vec<u8>) -> (r:
        Option<Image>)
        ensures
            r is Some <==> {
                &&& 1 <= width
                &&& 1 <= height
                &&& (channels == 3 || channels == 4)
                &&& width * channels <= rowstride
                &&& height * rowstride <= data@.len()
            },
            r matches Some(im) ==> im == (Image { width, height, channels, rowstride, data })
                && im.wf(),
    {
        let n = data.len();
        if width < 1 || height < 1 {
            return None;
        }
        if channels != 3 && channels != 4 {
            return None;
        }
        let wc = match width.checked_mul(channels) {
            Some(v) => v,
            None => {
                return None;
            },
        };
        if rowstride < wc {
            return None;
        }
        let hr = match height.checked_mul(rowstride) {
            Some(v) => v,
            None => {
                return None;
            },
        };
        if n < hr {
            return None;
        }
        Some(Image { width, height, channels, rowstride, data })
    }

    /// Reads the red, green and blue bytes of the pixel at column `x`,
    /// row `y`, using this image's own rowstride and channel count.
    pub fn get_colors(&self, x: usize, y: usize) -> (rgb: (u8, u8, u8))
        requires
            self.wf(),
            x < self.width,
            y < self.height,
        ensures
            rgb == self.rgb_at(x as int, y as int),
    {
        let n = self.data.len();
        proof {
            lemma_offset_in_bounds(*self, x as int, y as int, 2);
            assert(y * self.rowstride + x * self.channels + 2 < n);
        }
        let base = y * self.rowstride + x * self.channels;
        (self.data[base], self.data[base + 1], self.data[base + 2])
    }
}

/// Every channel of every pixel of a well-formed image lies inside the buffer.
pub proof fn lemma_offset_in_bounds(im: Image, x: int, y: int, c: int)
    requires
        im.wf(),
        0 <= x < im.width,
        0 <= y < im.height,
        0 <= c < im.channels,
    ensures
        0 <= im.offset_of(x, y, c) < im.data@.len(),
{
    assert(0 <= y * im.rowstride + x * im.channels + c < im.height * im.rowstride)
        by (nonlinear_arith)
        requires
            0 <= x < im.width,
            0 <= y < im.height,
            0 <= c < im.channels,
            im.width * im.channels <= im.rowstride,
    ;
}

} // verus!
