//! A monochrome framebuffer: `framebuffer[y][x]` is the pixel in column `x`
//! of row `y`, `true` meaning a printed (black) dot.
use vstd::prelude::*;

verus! {

/// A rectangular grid of boolean pixels.
pub struct TapeDisplay {
    pub width: usize,
    pub height: usize,
    pub framebuffer: Vec<Vec<bool>>,
}

impl TapeDisplay {
    /// There are `height` rows of `width` pixels each.
    pub open spec fn wf(&self) -> bool {
        &&& self.framebuffer@.len() == self.height
        &&& forall|y: int| 0 <= y < self.height ==> #[trigger] self.framebuffer@[y]@.len() == self.width
    }

    /// The pixel at column `x`, row `y`; unset outside the grid.
    pub open spec fn pixel(&self, x: int, y: int) -> bool {
        0 <= x < self.width && 0 <= y < self.height && self.framebuffer@[y]@[x]
    }

    /// A blank framebuffer of the given size.
    pub fn new(width: usize, height: usize) -> (r: TapeDisplay)
        ensures
            r.wf(),
            r.width == width,
            r.height == height,
            forall|x: int, y: int| !r.pixel(x, y),
    {
        let mut framebuffer: Vec<Vec<bool>> = Vec::new();
        let mut y: usize = 0;
        while y < height
            invariant
                y <= height,
                framebuffer@.len() == y,
                forall|j: int| 0 <= j < y ==> #[trigger] framebuffer@[j]@.len() == width,
                forall|j: int, i: int|
                    0 <= j < y && 0 <= i < width ==> !#[trigger] framebuffer@[j]@[i],
            decreases height - y,
        {
            let row: Vec<bool> = vec![false; width];
            framebuffer.push(row);
            y = y + 1;
        }
        TapeDisplay { width, height, framebuffer }
    }

    /// The pixel at column `x`, row `y`; `false` outside the grid.
    pub fn get_pixel(&self, x: usize, y: usize) -> (r: bool)
        requires
            self.wf(),
        ensures
            r == self.pixel(x as int, y as int),
    {
        if x < self.width && y < self.height {
            self.framebuffer[y][x]
        } else {
            false
        }
    }

    /// Sets the pixel at column `x`, row `y` to `value`; outside the grid
    /// nothing changes.
    pub fn set_pixel(&mut self, x: usize, y: usize, value: bool)
        requires
            old(self).wf(),
        ensures
            final(self).wf(),
            final(self).width == old(self).width,
            final(self).height == old(self).height,
            forall|i: int, j: int|
                #[trigger] final(self).pixel(i, j) == if i == x && j == y && x < old(self).width
                    && y < old(self).height {
                    value
                } else {
                    old(self).pixel(i, j)
                },
    {
        if x < self.width && y < self.height {
            self.framebuffer[y][x] = value;
        }
    }

    /// The pixel at column `x`, row `y` after `top` is ORed onto `self` with
    /// its origin at column `ox`, row `oy`.
    pub open spec fn overlay_pixel(&self, top: &TapeDisplay, ox: int, oy: int, x: int, y: int) -> bool {
        0 <= x < self.width && 0 <= y < self.height && (self.pixel(x, y) || (x >= ox && y >= oy
            && top.pixel(x - ox, y - oy)))
    }

    /// ORs every pixel of `top` onto this framebuffer, `top`'s origin placed at
    /// column `ox`, row `oy`; what falls outside this framebuffer is dropped.
    pub fn overlay_or(&mut self, top: &TapeDisplay, ox: usize, oy: usize)
        requires
            old(self).wf(),
            top.wf(),
        ensures
            final(self).wf(),
            final(self).width == old(self).width,
            final(self).height == old(self).height,
            forall|x: int, y: int|
                #[trigger] final(self).pixel(x, y) == old(self).overlay_pixel(
                    top,
                    ox as int,
                    oy as int,
                    x,
                    y,
                ),
    {
        let ghost base = *self;
        let mut b: usize = 0;
        while b < top.height
            invariant
                self.wf(),
                top.wf(),
                base.wf(),
                b <= top.height,
                self.width == base.width,
                self.height == base.height,
                forall|x: int, y: int|
                    #[trigger] self.pixel(x, y) == (0 <= x < base.width && 0 <= y < base.height && (
                    base.pixel(x, y) || (x >= ox && y >= oy && top.pixel(x - ox, y - oy) && y - oy
                        < b))),
            decreases top.height - b,
        {
            let mut a: usize = 0;
            while a < top.width
                invariant
                    self.wf(),
                    top.wf(),
                    base.wf(),
                    b < top.height,
                    a <= top.width,
                    self.width == base.width,
                    self.height == base.height,
                    forall|x: int, y: int|
                        #[trigger] self.pixel(x, y) == (0 <= x < base.width && 0 <= y < base.height
                            && (base.pixel(x, y) || (x >= ox && y >= oy && top.pixel(x - ox, y - oy)
                            && (y - oy < b || (y - oy == b && x - ox < a))))),
                decreases top.width - a,
            {
                if top.get_pixel(a, b) && ox < self.width && a < self.width - ox && oy < self.height
                    && b < self.height - oy {
                    self.set_pixel(a + ox, b + oy, true);
                }
                a = a + 1;
            }
            b = b + 1;
        }
    }
}

/// The RGBA colour of a pixel: black where set, white elsewhere, opaque.
pub open spec fn pixel_rgba(set: bool) -> Seq<u8> {
    if set {
        seq![0, 0, 0, 255]
    } else {
        seq![255, 255, 255, 255]
    }
}

/// The RGBA bytes of the first `n` pixels of row `y`.
pub open spec fn row_rgba(td: TapeDisplay, y: int, n: nat) -> Seq<u8>
    decreases n,
{
    if n == 0 {
        seq![]
    } else {
        row_rgba(td, y, (n - 1) as nat) + pixel_rgba(td.pixel(n - 1, y))
    }
}

/// The RGBA bytes of the first `m` rows, row after row.
pub open spec fn preview_of(td: TapeDisplay, m: nat) -> Seq<u8>
    decreases m,
{
    if m == 0 {
        seq![]
    } else {
        preview_of(td, (m - 1) as nat) + row_rgba(td, m - 1, td.width as nat)
    }
}

impl TapeDisplay {
    /// The framebuffer as an RGBA image, one pixel per dot, row after row:
    /// black where a pixel is set, white elsewhere.
    pub fn preview_rgba(&self) -> (r: Vec<u8>)
        requires
            self.wf(),
        ensures
            r@ == preview_of(*self, self.height as nat),
    {
        let mut out: Vec<u8> = Vec::new();
        let mut y: usize = 0;
        while y < self.height
            invariant
                self.wf(),
                y <= self.height,
                out@ == preview_of(*self, y as nat),
            decreases self.height - y,
        {
            let ghost base = out@;
            let mut x: usize = 0;
            while x < self.width
                invariant
                    self.wf(),
                    y < self.height,
                    x <= self.width,
                    out@ == base + row_rgba(*self, y as int, x as nat),
                decreases self.width - x,
            {
                let c: u8 = if self.get_pixel(x, y) {
                    0
                } else {
                    255
                };
                out.push(c);
                out.push(c);
                out.push(c);
                out.push(255);
                x = x + 1;
                assert(out@ =~= base + row_rgba(*self, y as int, x as nat));
            }
            y = y + 1;
        }
        out
    }
}

/// ORing one framebuffer onto another never clears a pixel that was set, and
/// ORing a blank framebuffer onto another leaves it as it was.
pub proof fn lemma_overlay_monotone(base: TapeDisplay, top: TapeDisplay, ox: int, oy: int)
    ensures
        forall|x: int, y: int| base.pixel(x, y) ==> base.overlay_pixel(&top, ox, oy, x, y),
        (forall|x: int, y: int| !top.pixel(x, y)) ==> forall|x: int, y: int|
            base.overlay_pixel(&top, ox, oy, x, y) == base.pixel(x, y),
{
}

} // verus!
