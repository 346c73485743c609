//! The comparison itself: the diff buffer's specification and the
//! executable routine that produces it.

use vstd::prelude::*;

use crate::image::Image;

verus! {

/// The single failure: the two images' buffers hold different numbers
/// of bytes, so they cannot describe two same-sized pixel grids of one
/// layout.
#[derive(Clone, Copy, Debug, PartialEq, Eq, Structural)]
pub enum DiffError {
    DimensionMismatch,
}

/// Whether the pixels at column `x`, row `y` carry the same first three
/// channels in both images. Alpha plays no part.
pub open spec fn pixel_same(a: Image, b: Image, x: int, y: int) -> bool {
    a.rgb_at(x, y) == b.rgb_at(x, y)
}

/// Byte `i` of the diff buffer for `a` and `b`: the buffer is row-major,
/// three bytes per pixel, `(0, 0, 0)` for a pixel whose first three
/// channels agree and `(0, 255, 0)` for one where they differ.
pub open spec fn diff_byte(a: Image, b: Image, i: int) -> u8 {
    let p = i / 3;
    let c = i % 3;
    let x = p % (a.width as int);
    let y = p / (a.width as int);
    if c == 1 && !pixel_same(a, b, x, y) {
        255u8
    } else {
        0u8
    }
}

/// The whole diff buffer for `a` and `b`: `width * height * 3` bytes,
/// tightly packed.
pub open spec fn diff_output(a: Image, b: Image) -> Seq<u8> {
    Seq::new((a.width * a.height * 3) as nat, |i: int| diff_byte(a, b, i))
}

/// A diff buffer in which every pixel reads "same": `pixels` black
/// three-byte groups.
pub open spec fn all_black(pixels: nat) -> Seq<u8> {
    Seq::new(3 * pixels, |i: int| 0u8)
}

/// Each pixel owns one three-byte group of the diff buffer: the group of
/// the pixel at column `x`, row `y` starts at `3 * (y * width + x)` and
/// reads `(0, 0, 0)` where the first three channels agree and
/// `(0, 255, 0)` where they differ.
pub proof fn lemma_pixel_marking(a: Image, b: Image, x: int, y: int)
    requires
        a.wf(),
        0 <= x < a.width,
        0 <= y < a.height,
    ensures
        ({
            let base = 3 * (y * a.width + x);
            &&& 0 <= base
            &&& base + 3 <= diff_output(a, b).len()
            &&& diff_output(a, b)[base] == 0u8
            &&& diff_output(a, b)[base + 1] == (if pixel_same(a, b, x, y) {
                0u8
            } else {
                255u8
            })
            &&& diff_output(a, b)[base + 2] == 0u8
        }),
{
    let w = a.width as int;
    let p = y * w + x;
    assert(0 <= y * w + x && y * w + x + 1 <= w * a.height) by (nonlinear_arith)
        requires
            0 <= x < w,
            0 <= y < a.height,
    ;
    vstd::arithmetic::div_mod::lemma_fundamental_div_mod_converse(p, w, y, x);
    vstd::arithmetic::div_mod::lemma_fundamental_div_mod_converse(3 * p, 3, p, 0);
    vstd::arithmetic::div_mod::lemma_fundamental_div_mod_converse(3 * p + 1, 3, p, 1);
    vstd::arithmetic::div_mod::lemma_fundamental_div_mod_converse(3 * p + 2, 3, p, 2);
    assert(3 * p + 3 <= a.width * a.height * 3) by (nonlinear_arith)
        requires
            p + 1 <= (a.width as int) * a.height,
    ;
}

/// Within the diff buffer for a `w` by `h` grid, byte `i` belongs to the
/// pixel at column `i / 3 % w`, row `i / 3 / w`, which lies on the grid.
proof fn lemma_buffer_index(w: int, h: int, i: int)
    requires
        1 <= w,
        1 <= h,
        0 <= i < w * h * 3,
    ensures
        0 <= i / 3 % w < w,
        0 <= i / 3 / w < h,
{
    vstd::arithmetic::div_mod::lemma_fundamental_div_mod(i, 3);
    vstd::arithmetic::div_mod::lemma_mod_bound(i, 3);
    assert(0 <= i / 3 && i / 3 < w * h) by (nonlinear_arith)
        requires
            i == 3 * (i / 3) + i % 3,
            0 <= i % 3 < 3,
            0 <= i < w * h * 3,
    ;
    vstd::arithmetic::div_mod::lemma_fundamental_div_mod(i / 3, w);
    vstd::arithmetic::div_mod::lemma_mod_bound(i / 3, w);
    assert(0 <= i / 3 / w && i / 3 / w < h) by (nonlinear_arith)
        requires
            i / 3 == w * (i / 3 / w) + i / 3 % w,
            0 <= i / 3 % w < w,
            0 <= i / 3 < w * h,
    ;
}

/// Comparing an image with itself marks every pixel "same": the diff
/// buffer is all black.
pub proof fn lemma_compare_self(a: Image)
    requires
        a.wf(),
    ensures
        diff_output(a, a) == all_black((a.width * a.height) as nat),
{
    assert(diff_output(a, a) =~= all_black((a.width * a.height) as nat));
}

/// The comparison is symmetric: whichever image comes first, the same
/// pixels are marked "different", and the paint colors are the same
/// because the predicate is plain equality.
pub proof fn lemma_compare_symmetric(a: Image, b: Image)
    requires
        a.width == b.width,
        a.height == b.height,
    ensures
        diff_output(a, b) == diff_output(b, a),
{
    assert(diff_output(a, b) =~= diff_output(b, a));
}

/// Alpha is never consulted: two images whose first three channels agree
/// at every pixel compare as fully "same", whatever their fourth
/// channels hold.
pub proof fn lemma_alpha_ignored(a: Image, b: Image)
    requires
        a.wf(),
        b.wf(),
        a.width == b.width,
        a.height == b.height,
        forall|x: int, y: int|
            0 <= x < a.width && 0 <= y < a.height ==> a.rgb_at(x, y) == b.rgb_at(x, y),
    ensures
        diff_output(a, b) == all_black((a.width * a.height) as nat),
{
    let o = diff_output(a, b);
    assert forall|i: int| 0 <= i < o.len() implies o[i] == 0u8 by {
        lemma_buffer_index(a.width as int, a.height as int, i);
        let x = i / 3 % (a.width as int);
        let y = i / 3 / (a.width as int);
        assert(a.rgb_at(x, y) == b.rgb_at(x, y));
    }
    assert(o =~= all_black((a.width * a.height) as nat));
}

/// Compares the two images pixel by pixel on their first three channels
/// and returns the diff buffer: row-major, three tightly packed bytes per
/// pixel, black `(0, 0, 0)` for a pixel whose red, green and blue values
/// all agree, green `(0, 255, 0)` otherwise. Fails, producing no buffer,
/// exactly when the two pixel buffers hold different numbers of bytes.
pub fn compare(img1: &Image, img2: &Image) -> (r: Result<Vec<u8>, DiffError>)
    requires
        img1.wf(),
        img2.wf(),
        img1.width == img2.width,
        img1.height == img2.height,
    ensures
        match r {
            Ok(v) => img1.data@.len() == img2.data@.len() && v@ == diff_output(*img1, *img2),
            Err(e) => e == DiffError::DimensionMismatch && img1.data@.len() != img2.data@.len(),
        },
{
    if img1.data.len() != img2.data.len() {
        return Err(DiffError::DimensionMismatch);
    }
    let width = img1.width;
    let height = img1.height;
    let mut out: Vec<u8> = Vec::new();
    let mut y: usize = 0;
    while y < height
        invariant
            img1.wf(),
            img2.wf(),
            img1.width == width,
            img2.width == width,
            img1.height == height,
            img2.height == height,
            img1.data@.len() == img2.data@.len(),
            y <= height,
            out@.len() == 3 * (y * width),
            forall|i: int| 0 <= i < out@.len() ==> out@[i] == diff_byte(*img1, *img2, i),
        decreases height - y,
    {
        let mut x: usize = 0;
        while x < width
            invariant
                img1.wf(),
                img2.wf(),
                img1.width == width,
                img2.width == width,
                img1.height == height,
                img2.height == height,
                img1.data@.len() == img2.data@.len(),
                y < height,
                x <= width,
                out@.len() == 3 * (y * width) + 3 * x,
                forall|i: int| 0 <= i < out@.len() ==> out@[i] == diff_byte(*img1, *img2, i),
            decreases width - x,
        {
            let p1 = img1.get_colors(x, y);
            let p2 = img2.get_colors(x, y);
            if p1.0 == p2.0 && p1.1 == p2.1 && p1.2 == p2.2 {
                out.push(0);
                out.push(0);
                out.push(0);
            } else {
                out.push(0);
                out.push(255);
                out.push(0);
            }
            proof {
                lemma_pixel_marking(*img1, *img2, x as int, y as int);
            }
            x = x + 1;
        }
        proof {
            assert(3 * (y * width) + 3 * width == 3 * ((y + 1) * width)) by (nonlinear_arith);
        }
        y = y + 1;
    }
    proof {
        assert(3 * (height * width) == width * height * 3) by (nonlinear_arith);
        assert(out@ =~= diff_output(*img1, *img2));
    }
    Ok(out)
}

/// The diff image: the buffer from `compare` together with its layout.
/// Always three channels (RGB, no alpha) and tightly packed rows.
pub struct DiffImage {
    pub width: usize,
    pub height: usize,
    pub rowstride: usize,
    pub data: Vec<u8>,
}

impl DiffImage {
    /// Layout invariant: rows of exactly `width` three-byte pixels, no
    /// padding, and a buffer of exactly `height` such rows.
    pub open spec fn wf(self) -> bool {
        &&& self.rowstride == self.width * 3
        &&& self.data@.len() == self.width * self.height * 3
    }
}

/// A pending comparison: the target dimensions and the two images, each
/// possibly still missing.
pub struct Diff {
    pub width: usize,
    pub height: usize,
    pub img1: Option<Image>,
    pub img2: Option<Image>,
}

impl Diff {
    /// Each image that is present is well formed and has this `Diff`'s
    /// dimensions.
    pub open spec fn wf(self) -> bool {
        &&& (self.img1 matches Some(a) ==> a.wf() && a.width == self.width && a.height
            == self.height)
        &&& (self.img2 matches Some(b) ==> b.wf() && b.width == self.width && b.height
            == self.height)
    }

    /// Gathers two decoded images, either possibly missing, for a
    /// comparison at the given dimensions.
    pub fn new(img1: Option<Image>, img2: Option<Image>, width: usize, height: usize) -> (d: Diff)
        requires
            img1 matches Some(a) ==> a.wf() && a.width == width && a.height == height,
            img2 matches Some(b) ==> b.wf() && b.width == width && b.height == height,
        ensures
            d == (Diff { width, height, img1, img2 }),
            d.wf(),
    {
        Diff { width, height, img1, img2 }
    }

    /// Compares the two images; see [`compare`]. Both images must be
    /// present.
    pub fn compare(&self) -> (r: Result<Vec<u8>, DiffError>)
        requires
            self.wf(),
            self.img1 is Some,
            self.img2 is Some,
        ensures
            ({
                let a = self.img1->Some_0;
                let b = self.img2->Some_0;
                match r {
                    Ok(v) => a.data@.len() == b.data@.len() && v@ == diff_output(a, b),
                    Err(e) => e == DiffError::DimensionMismatch && a.data@.len() != b.data@.len(),
                }
            }),
    {
        let a = self.img1.as_ref().unwrap();
        let b = self.img2.as_ref().unwrap();
        compare(a, b)
    }

    /// Runs the comparison and wraps the buffer as a [`DiffImage`].
    /// Yields `Ok(None)` exactly when an image is still missing, the
    /// diff image when both are present and their buffers' lengths
    /// agree, and `DimensionMismatch` when the lengths differ.
    pub fn result(&self) -> (r: Result<Option<DiffImage>, DiffError>)
        requires
            self.wf(),
        ensures
            match r {
                Ok(None) => self.img1 is None || self.img2 is None,
                Ok(Some(d)) => {
                    let a = self.img1->Some_0;
                    let b = self.img2->Some_0;
                    &&& self.img1 is Some
                    &&& self.img2 is Some
                    &&& a.data@.len() == b.data@.len()
                    &&& d.wf()
                    &&& d.width == self.width
                    &&& d.height == self.height
                    &&& d.rowstride == self.width * 3
                    &&& d.data@ == diff_output(a, b)
                },
                Err(e) => {
                    &&& e == DiffError::DimensionMismatch
                    &&& self.img1 is Some
                    &&& self.img2 is Some
                    &&& self.img1->Some_0.data@.len() != self.img2->Some_0.data@.len()
                },
            },
    {
        if self.img1.is_none() || self.img2.is_none() {
            return Ok(None);
        }
        let a = self.img1.as_ref().unwrap();
        let b = self.img2.as_ref().unwrap();
        match compare(a, b) {
            Ok(data) => {
                let n = data.len();
                proof {
                    assert(self.width * 3 <= n) by (nonlinear_arith)
                        requires
                            1 <= self.height,
                            n == self.width * self.height * 3,
                    ;
                }
                let rowstride = self.width * 3;
                Ok(Some(DiffImage { width: self.width, height: self.height, rowstride, data }))
            },
            Err(e) => Err(e),
        }
    }
}

} // verus!
