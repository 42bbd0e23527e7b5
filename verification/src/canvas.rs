use vstd::prelude::*;

verus! {

/// An RGB color, one byte per channel.
#[derive(Clone, Copy, Debug, PartialEq, Eq, Structural)]
pub struct Rgb {
    pub r: u8,
    pub g: u8,
    pub b: u8,
}

/// The color of every pixel of a freshly created canvas.
pub open spec fn black() -> Rgb {
    Rgb { r: 0, g: 0, b: 0 }
}

/// The pixel found at column `x`, row `y` of a row-major byte buffer
/// that holds three bytes per pixel and `w` pixels per row.
pub open spec fn pix_of(bytes: Seq<u8>, w: u32, x: int, y: int) -> Rgb {
    Rgb {
        r: bytes[3 * (y * w + x)],
        g: bytes[3 * (y * w + x) + 1],
        b: bytes[3 * (y * w + x) + 2],
    }
}

/// A mutable pixel buffer: `width * height` RGB pixels, three bytes per
/// pixel, stored row-major.
pub struct Canvas {
    pub width: u32,
    pub height: u32,
    pub pixels: Vec<u8>,
}

impl Canvas {
    /// The buffer holds exactly three bytes for each of the
    /// `width * height` pixels.
    pub open spec fn wf(self) -> bool {
        self.pixels@.len() == 3 * self.width * self.height
    }

    /// The pixel at column `x`, row `y`.
    pub open spec fn pix(self, x: int, y: int) -> Rgb {
        pix_of(self.pixels@, self.width, x, y)
    }

    /// True of the coordinates that lie on the canvas.
    pub open spec fn in_bounds(self, x: int, y: int) -> bool {
        0 <= x < self.width && 0 <= y < self.height
    }

    /// A blank (all-black) canvas of the given size.
    pub fn new(width: u32, height: u32) -> (c: Canvas)
        requires
            3 * width * height <= usize::MAX,
        ensures
            c.wf(),
            c.width == width,
            c.height == height,
            forall|x: int, y: int| #![trigger c.pix(x, y)] c.in_bounds(x, y) ==> c.pix(x, y) == black(),
    {
        proof {
            assert((width as int) * (height as int) <= 3 * (width as int) * (height as int)
                && 3 * (width as int) * (height as int) == 3 * ((width as int) * (height as int)))
                by (nonlinear_arith);
        }
        let per_row: usize = (width as usize) * (height as usize);
        let total: usize = 3 * per_row;
        let pixels: Vec<u8> = vec![0u8; total];
        let c = Canvas { width, height, pixels };
        proof {
            assert forall|x: int, y: int| c.in_bounds(x, y) implies c.pix(x, y) == black() by {
                lemma_pixel_index_in_range(width, height, x, y);
            }
        }
        c
    }

    /// Read the pixel at `(x, y)`.
    pub fn get_pixel(&self, x: u32, y: u32) -> (p: Rgb)
        requires
            self.wf(),
            x < self.width,
            y < self.height,
        ensures
            p == self.pix(x as int, y as int),
    {
        proof {
            lemma_buffer_len_bound(&self.pixels);
            lemma_pixel_index_in_range(self.width, self.height, x as int, y as int);
        }
        let idx: usize = 3 * ((y as usize) * (self.width as usize) + (x as usize));
        Rgb { r: self.pixels[idx], g: self.pixels[idx + 1], b: self.pixels[idx + 2] }
    }

    /// Overwrite the pixel at `(x, y)`; every other pixel is untouched.
    pub fn set_pixel(&mut self, x: u32, y: u32, color: Rgb)
        requires
            old(self).wf(),
            x < old(self).width,
            y < old(self).height,
        ensures
            final(self).wf(),
            final(self).width == old(self).width,
            final(self).height == old(self).height,
            final(self).pix(x as int, y as int) == color,
            forall|i: int, j: int| #![trigger final(self).pix(i, j)]
                final(self).in_bounds(i, j) && !(i == x && j == y) ==> final(self).pix(i, j)
                    == old(self).pix(i, j),
    {
        proof {
            lemma_buffer_len_bound(&self.pixels);
            lemma_pixel_index_in_range(self.width, self.height, x as int, y as int);
        }
        let idx: usize = 3 * ((y as usize) * (self.width as usize) + (x as usize));
        self.pixels[idx] = color.r;
        self.pixels[idx + 1] = color.g;
        self.pixels[idx + 2] = color.b;
        proof {
            assert forall|i: int, j: int|
                self.in_bounds(i, j) && !(i == x && j == y) implies self.pix(i, j) == old(
                self,
            ).pix(i, j) by {
                lemma_pixel_index_in_range(self.width, self.height, i, j);
                lemma_row_major_distinct(self.width as int, i, j, x as int, y as int);
            }
        }
    }
}

/// The luma of a pixel on the 0..=255 scale, by the sRGB weights
/// 2126 : 7152 : 722 in ten-thousandths, rounded down.
pub open spec fn spec_luma(p: Rgb) -> int {
    (2126 * p.r + 7152 * p.g + 722 * p.b) / 10000
}

/// A pixel turned gray and darkened: its luma, lowered by 50 units and
/// clamped at zero, on all three channels.
pub open spec fn gray_pixel(p: Rgb) -> Rgb {
    let l = spec_luma(p);
    let v = if l < 50 {
        0u8
    } else {
        (l - 50) as u8
    };
    Rgb { r: v, g: v, b: v }
}

/// What the base canvas shows at `(x, y)` before any dot is plotted:
/// black without a seed image, the grayscale-darkened seed pixel with one.
pub open spec fn init_pix(seed: Option<Canvas>, x: int, y: int) -> Rgb {
    match seed {
        None => black(),
        Some(s) => gray_pixel(s.pix(x, y)),
    }
}

/// The canvas initializer: a blank canvas of the given size, or, when a
/// seed image of the same size is supplied, that image converted to
/// grayscale and darkened by 50 brightness units.
pub fn init_canvas(width: u32, height: u32, seed: Option<&Canvas>) -> (c: Canvas)
    requires
        3 * width * height <= usize::MAX,
        match seed {
            Some(s) => s.wf() && s.width == width && s.height == height,
            None => true,
        },
    ensures
        c.wf(),
        c.width == width,
        c.height == height,
        seed is None ==> forall|x: int, y: int| #![trigger c.pix(x, y)]
            c.in_bounds(x, y) ==> c.pix(x, y) == black(),
        seed is Some ==> forall|x: int, y: int| #![trigger c.pix(x, y)]
            c.in_bounds(x, y) ==> c.pix(x, y) == gray_pixel(seed.unwrap().pix(x, y)),
{
    let mut c = Canvas::new(width, height);
    match seed {
        None => c,
        Some(s) => {
            let mut y: u32 = 0;
            while y < height
                invariant
                    c.wf(),
                    c.width == width,
                    c.height == height,
                    y <= height,
                    s.wf(),
                    s.width == width,
                    s.height == height,
                    forall|i: int, j: int| #![trigger c.pix(i, j)]
                        c.in_bounds(i, j) && j < y ==> c.pix(i, j) == gray_pixel(s.pix(i, j)),
                decreases height - y,
            {
                let mut x: u32 = 0;
                while x < width
                    invariant
                        c.wf(),
                        c.width == width,
                        c.height == height,
                        x <= width,
                        y < height,
                        s.wf(),
                        s.width == width,
                        s.height == height,
                        forall|i: int, j: int| #![trigger c.pix(i, j)]
                            c.in_bounds(i, j) && (j < y || (j == y && i < x)) ==> c.pix(i, j)
                                == gray_pixel(s.pix(i, j)),
                    decreases width - x,
                {
                    let p = s.get_pixel(x, y);
                    let weighted: u32 = 2126 * (p.r as u32) + 7152 * (p.g as u32) + 722 * (
                    p.b as u32);
                    let l: u32 = weighted / 10000;
                    let v: u8 = if l < 50 {
                        0
                    } else {
                        (l - 50) as u8
                    };
                    c.set_pixel(x, y, Rgb { r: v, g: v, b: v });
                    x += 1;
                }
                y += 1;
            }
            c
        },
    }
}

/// A vector never holds more than `usize::MAX` elements.
proof fn lemma_buffer_len_bound(v: &Vec<u8>)
    ensures
        v@.len() <= usize::MAX,
{
    broadcast use vstd::std_specs::vec::axiom_spec_len;

    assert(vstd::std_specs::vec::spec_vec_len(v) == v@.len());
}

/// The flat index of an in-bounds coordinate addresses three bytes that all
/// lie inside a well-formed buffer.
proof fn lemma_pixel_index_in_range(w: u32, h: u32, x: int, y: int)
    requires
        0 <= x < w,
        0 <= y < h,
    ensures
        0 <= 3 * (y * w + x),
        3 * (y * w + x) + 2 < 3 * w * h,
        y * w + x < w * h,
{
    assert(0 <= y * w + x && y * w + x < w * h && 3 * (y * w + x) + 2 < 3 * (w as int) * (h as int))
        by (nonlinear_arith)
        requires
            0 <= x < w,
            0 <= y < h,
    ;
}

/// Distinct in-bounds coordinates have distinct row-major indices.
proof fn lemma_row_major_distinct(w: int, x1: int, y1: int, x2: int, y2: int)
    requires
        0 <= x1 < w,
        0 <= x2 < w,
        0 <= y1,
        0 <= y2,
        !(x1 == x2 && y1 == y2),
    ensures
        y1 * w + x1 != y2 * w + x2,
{
    assert(y1 * w + x1 != y2 * w + x2) by (nonlinear_arith)
        requires
            0 <= x1 < w,
            0 <= x2 < w,
            0 <= y1,
            0 <= y2,
            !(x1 == x2 && y1 == y2),
    ;
}

} // verus!
