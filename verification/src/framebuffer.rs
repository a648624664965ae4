//! A fixed-size pixel buffer, one `0x00RRGGBB` color per grid cell,
//! row-major. Point-writes are validated against the declared width and
//! height, so a write outside the declared area is silently dropped.

use vstd::prelude::*;

verus! {

/// Row-major flattening: cell `(x, y)` lives at pixel index `y * width + x`.
/// The index of an in-bounds cell is itself in bounds.
pub proof fn lemma_row_major_in_range(width: int, height: int, x: int, y: int)
    requires
        0 <= x < width,
        0 <= y < height,
    ensures
        0 <= y * width + x < width * height,
{
    assert(0 <= y * width + x < width * height) by (nonlinear_arith)
        requires
            0 <= x < width,
            0 <= y < height,
    ;
}

/// Distinct in-bounds cells flatten to distinct pixel indices.
pub proof fn lemma_row_major_injective(width: int, x1: int, y1: int, x2: int, y2: int)
    requires
        0 <= x1 < width,
        0 <= x2 < width,
        y1 * width + x1 == y2 * width + x2,
    ensures
        x1 == x2 && y1 == y2,
{
    assert(x1 == x2 && y1 == y2) by (nonlinear_arith)
        requires
            0 <= x1 < width,
            0 <= x2 < width,
            y1 * width + x1 == y2 * width + x2,
    ;
}

pub struct Framebuffer {
    pub width: usize,
    pub height: usize,
    pub current_color: u32,
    pub pixels: Vec<u32>,
}

impl Framebuffer {
    /// The pixel array always matches the declared dimensions.
    pub open spec fn wf(&self) -> bool {
        self.pixels@.len() == self.width * self.height
    }

    pub fn new(width: usize, height: usize) -> (fb: Framebuffer)
        requires
            width * height <= usize::MAX,
        ensures
            fb.wf(),
            fb.width == width,
            fb.height == height,
            fb.current_color == 0,
            forall|i: int| 0 <= i < fb.pixels@.len() ==> fb.pixels@[i] == 0u32,
    {
        let size: usize = width * height;
        let mut pixels: Vec<u32> = Vec::new();
        let mut i: usize = 0;
        while i < size
            invariant
                i <= size,
                pixels@.len() == i,
                forall|j: int| 0 <= j < i ==> pixels@[j] == 0u32,
            decreases size - i,
        {
            pixels.push(0);
            i = i + 1;
        }
        Framebuffer { width, height, current_color: 0, pixels }
    }

    /// Select the color that subsequent point-writes will use.
    pub fn set_current_color(&mut self, color: u32)
        ensures
            final(self).width == old(self).width,
            final(self).height == old(self).height,
            final(self).pixels@ == old(self).pixels@,
            final(self).current_color == color,
    {
        self.current_color = color;
    }

    /// Write the current color at cell `(x, y)`; a point outside the
    /// declared dimensions is dropped without touching the buffer.
    pub fn point(&mut self, x: usize, y: usize)
        requires
            old(self).wf(),
        ensures
            final(self).wf(),
            final(self).width == old(self).width,
            final(self).height == old(self).height,
            final(self).current_color == old(self).current_color,
            x < old(self).width && y < old(self).height ==> final(self).pixels@ == old(
                self,
            ).pixels@.update(y * old(self).width + x, old(self).current_color),
            !(x < old(self).width && y < old(self).height) ==> final(self).pixels@ == old(
                self,
            ).pixels@,
    {
        if x < self.width && y < self.height {
            let pixel_count: usize = self.pixels.len();
            proof {
                lemma_row_major_in_range(
                    self.width as int,
                    self.height as int,
                    x as int,
                    y as int,
                );
                assert(y * self.width + x < pixel_count);
            }
            let idx: usize = y * self.width + x;
            self.pixels.set(idx, self.current_color);
        }
    }
}

} // verus!
