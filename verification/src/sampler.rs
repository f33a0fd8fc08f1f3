use vstd::prelude::*;

use crate::color::Rgb;

verus! {

/// The color of a 32-bit DIB pixel (`0xAARRGGBB` in a `u32`: blue in the
/// lowest byte, the top byte ignored).
pub open spec fn dib_color(px: u32) -> Rgb {
    Rgb { r: ((px >> 16u32) & 0xff) as u8, g: ((px >> 8u32) & 0xff) as u8, b: (px & 0xff) as u8 }
}

/// The colors of a row-major block of DIB pixels, in the same order.
pub open spec fn decoded(buf: Seq<u32>) -> Seq<Rgb> {
    buf.map_values(|px: u32| dib_color(px))
}

/// What `LoupeCapture::get` reads at flat index `i`: the pixel there, or
/// black past the end.
pub open spec fn pixel_or_black(pixels: Seq<Rgb>, i: int) -> Rgb {
    if 0 <= i < pixels.len() {
        pixels[i]
    } else {
        Rgb { r: 0, g: 0, b: 0 }
    }
}

/// The pixel that `LoupeCapture::get(col, row)` reads from row-major
/// `pixels` of a square of side `size`.
pub open spec fn loupe_pixel(pixels: Seq<Rgb>, size: int, col: int, row: int) -> Rgb {
    pixel_or_black(pixels, row * size + col)
}

/// The pixel that `LoupeCapture::center` reads.
pub open spec fn center_pixel(pixels: Seq<Rgb>, size: int) -> Rgb {
    loupe_pixel(pixels, size, size / 2, size / 2)
}

/// A square screen region: top-left corner `(x0, y0)`, side `size` pixels.
#[derive(Debug, Clone, Copy, PartialEq, Eq, Structural)]
pub struct CaptureRegion {
    pub x0: i32,
    pub y0: i32,
    pub size: u32,
}

/// The square of side `2 * half + 1` centered on `(cx, cy)`.
pub open spec fn centered_region(cx: i32, cy: i32, half: i32) -> CaptureRegion {
    CaptureRegion { x0: (cx - half) as i32, y0: (cy - half) as i32, size: (2 * half + 1) as u32 }
}

/// Whether the region arithmetic for `(cx, cy, half)` stays in range.
pub open spec fn region_fits(cx: i32, cy: i32, half: i32) -> bool {
    &&& 0 <= half
    &&& 2 * half + 1 <= i32::MAX
    &&& cx - half >= i32::MIN
    &&& cy - half >= i32::MIN
    &&& (2 * half + 1) * (2 * half + 1) <= u32::MAX
}

impl CaptureRegion {
    /// The `(2 * half + 1)`-pixel square centered on `(cx, cy)`.
    pub fn centered(cx: i32, cy: i32, half: i32) -> (reg: CaptureRegion)
        requires
            region_fits(cx, cy, half),
        ensures
            reg == centered_region(cx, cy, half),
            reg.x0 + half == cx,
            reg.y0 + half == cy,
            reg.size == 2 * half + 1,
    {
        let size: u32 = (2 * half + 1) as u32;
        CaptureRegion { x0: cx - half, y0: cy - half, size }
    }

    /// Number of pixels in the region.
    pub fn pixel_count(&self) -> (n: usize)
        requires
            self.size * self.size <= u32::MAX,
        ensures
            n == self.size * self.size,
    {
        assert(self.size * self.size <= u32::MAX);
        (self.size * self.size) as usize
    }
}

/// A square block of screen pixels around the cursor.
pub struct LoupeCapture {
    /// Row-major, top-left first.
    pub pixels: Vec<Rgb>,
    /// Width = height = size.
    pub size: usize,
}

impl LoupeCapture {
    /// Builds a capture from the 32-bit DIB pixels that a screen read gave
    /// back, in the same order.
    pub fn from_dib_pixels(buf: Vec<u32>, size: usize) -> (cap: LoupeCapture)
        ensures
            cap.size == size,
            cap.pixels@ == decoded(buf@),
    {
        let mut pixels: Vec<Rgb> = Vec::new();
        let n: usize = buf.len();
        for i in 0..n
            invariant
                n == buf@.len(),
                pixels@.len() == i,
                forall|j: int| 0 <= j < i ==> pixels@[j] == dib_color(#[trigger] buf@[j]),
        {
            let px: u32 = buf[i];
            pixels.push(Rgb { r: ((px >> 16) & 0xff) as u8, g: ((px >> 8) & 0xff) as u8, b: (px & 0xff) as u8 });
        }
        assert(pixels@ =~= decoded(buf@));
        LoupeCapture { pixels, size }
    }

    /// Get pixel at (col, row) within the capture, 0-indexed; black where the
    /// index falls past the pixels.
    pub fn get(&self, col: usize, row: usize) -> (px: Rgb)
        requires
            row * self.size + col <= usize::MAX,
        ensures
            px == loupe_pixel(self.pixels@, self.size as int, col as int, row as int),
    {
        let i: usize = row * self.size + col;
        if i < self.pixels.len() {
            self.pixels[i]
        } else {
            Rgb::new(0, 0, 0)
        }
    }

    /// The center pixel (the actual picked color candidate).
    pub fn center(&self) -> (px: Rgb)
        requires
            (self.size / 2) * self.size + self.size / 2 <= usize::MAX,
        ensures
            px == center_pixel(self.pixels@, self.size as int),
    {
        let mid: usize = self.size / 2;
        self.get(mid, mid)
    }
}

/// The loupe is centered on the cursor: in the region captured around
/// `(cx, cy)`, the pixel that `LoupeCapture::center` reads (column and row
/// `size / 2`) is the one at `(cx, cy)`, and it lies inside the square.
pub proof fn lemma_center_is_cursor(cx: i32, cy: i32, half: i32)
    requires
        region_fits(cx, cy, half),
    ensures
        ({
            let reg: CaptureRegion = centered_region(cx, cy, half);
            let mid: int = (reg.size / 2) as int;
            &&& reg.x0 + mid == cx
            &&& reg.y0 + mid == cy
            &&& 0 <= mid * reg.size + mid < reg.size * reg.size
        }),
{
    let reg: CaptureRegion = centered_region(cx, cy, half);
    let n: int = reg.size as int;
    assert(n == 2 * half + 1);
    assert(n / 2 == half);
    assert(half * n + half < n * n) by (nonlinear_arith)
        requires
            n == 2 * half + 1,
            0 <= half,
    ;
    assert(0 <= half * n) by (nonlinear_arith)
        requires
            0 <= n,
            0 <= half,
    ;
}

/// Pixels are row-major, top-left first: in a full square, `(col, row)`
/// reads the element `row * size + col`; an index past the pixels reads
/// black.
pub proof fn lemma_loupe_row_major(pixels: Seq<Rgb>, size: nat, col: nat, row: nat)
    ensures
        pixels.len() == size * size && col < size && row < size ==> loupe_pixel(
            pixels,
            size as int,
            col as int,
            row as int,
        ) == pixels[(row * size + col) as int],
        row * size + col >= pixels.len() ==> loupe_pixel(pixels, size as int, col as int, row as int)
            == (Rgb { r: 0, g: 0, b: 0 }),
{
    if col < size && row < size {
        assert(row * size + col < size * size) by (nonlinear_arith)
            requires
                col < size,
                row < size,
        ;
    }
}

/// The center that `LoupeCapture::center` reads in a square of side
/// `2 * half + 1` is column `half`, row `half`: the pixel under the cursor
/// of a region made by `CaptureRegion::centered`.
pub proof fn lemma_center_reads_cursor_pixel(pixels: Seq<Rgb>, half: nat)
    ensures
        center_pixel(pixels, 2 * half + 1 as int) == loupe_pixel(pixels, 2 * half + 1 as int, half as int, half as int),
{
}

/// A capture built from a full square of DIB pixels reads back, at every
/// column and row of the square, the color of the pixel stored there.
pub proof fn lemma_get_reads_decoded(buf: Seq<u32>, size: nat, col: nat, row: nat)
    requires
        buf.len() == size * size,
        col < size,
        row < size,
    ensures
        loupe_pixel(decoded(buf), size as int, col as int, row as int) == dib_color(buf[(row * size + col) as int]),
{
    assert(row * size + col < size * size) by (nonlinear_arith)
        requires
            col < size,
            row < size,
    ;
}

/// A DIB pixel holds red in bits 16–23, green in bits 8–15 and blue in
/// bits 0–7: putting the decoded channels back in those places gives the
/// pixel without its top byte.
pub proof fn lemma_dib_color_reencodes(px: u32)
    ensures
        dib_color(px).r * 65536 + dib_color(px).g * 256 + dib_color(px).b == px % 0x100_0000,
{
    let c: Rgb = dib_color(px);
    let r: u8 = c.r;
    let g: u8 = c.g;
    let b: u8 = c.b;
    assert(r == ((px >> 16u32) & 0xff) as u8);
    assert(g == ((px >> 8u32) & 0xff) as u8);
    assert(b == (px & 0xff) as u8);
    assert(((px >> 16u32) & 0xff) as u8 as u32 * 65536 + ((px >> 8u32) & 0xff) as u8 as u32 * 256
        + (px & 0xff) as u8 as u32 == px % 0x100_0000) by (bit_vector);
}

} // verus!
