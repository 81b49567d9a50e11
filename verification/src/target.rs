//! The render target: a packed colour buffer and a depth buffer of the same
//! size, written through compositing and the depth test.

use crate::buffer::cell_index;
use crate::buffer::lemma_cell_index;
use crate::buffer::Buffer;
use crate::color::source_over;
use crate::color::pack_rgba;
use crate::color::Color;
use crate::color::CompositeMode;
use crate::fixed::div_floor;
use crate::fixed::floor_quot;
use crate::fixed::saturate;
use crate::fixed::Fixed;
use vstd::prelude::*;

verus! {

/// A render target with a packed RGBA colour buffer and a depth buffer.
pub struct RenderTarget {
    width: usize,
    height: usize,
    color: Buffer<u32>,
    depth: Buffer<Fixed>,
}

/// What a render target holds: its size, and the colour and the depth of each
/// pixel, row by row.
pub struct TargetView {
    pub width: nat,
    pub height: nat,
    pub colors: Seq<u32>,
    pub depths: Seq<Fixed>,
}

impl TargetView {
    /// Both buffers hold one cell for each pixel.
    pub open spec fn wf(self) -> bool {
        &&& self.colors.len() == self.width * self.height
        &&& self.depths.len() == self.width * self.height
    }

    /// Whether `(x, y)` is a pixel of the target.
    pub open spec fn holds(self, x: int, y: int) -> bool {
        0 <= x < self.width && 0 <= y < self.height
    }

    /// The storage index of the pixel at `(x, y)`.
    pub open spec fn index(self, x: int, y: int) -> int {
        cell_index(self.width as int, x, y)
    }

    /// The packed colour of the pixel at `(x, y)`.
    pub open spec fn color_at(self, x: int, y: int) -> u32 {
        self.colors[self.index(x, y)]
    }

    /// The depth of the pixel at `(x, y)`.
    pub open spec fn depth_at(self, x: int, y: int) -> Fixed {
        self.depths[self.index(x, y)]
    }

    /// The target of the given size with every pixel transparent black and at
    /// the far plane, depth one.
    pub open spec fn blank(width: nat, height: nat) -> TargetView {
        TargetView {
            width,
            height,
            colors: Seq::new(width * height, |i: int| 0u32),
            depths: Seq::new(width * height, |i: int| Fixed::of(65536)),
        }
    }

    /// The target after `src` is drawn over the pixel at `(x, y)`.
    pub open spec fn painted(self, x: int, y: int, src: Color) -> TargetView {
        TargetView {
            colors: self.colors.update(self.index(x, y), source_over(self.color_at(x, y), src)),
            ..self
        }
    }

    /// Whether `depth` is strictly nearer than the depth stored at `(x, y)`.
    pub open spec fn depth_passes(self, x: int, y: int, depth: Fixed) -> bool {
        depth@ < self.depth_at(x, y)@
    }

    /// The target after the depth test of `depth` at `(x, y)`: the depth is
    /// stored if it passes, and nothing changes if it does not.
    pub open spec fn depth_checked(self, x: int, y: int, depth: Fixed) -> TargetView {
        if self.depth_passes(x, y, depth) {
            TargetView { depths: self.depths.update(self.index(x, y), depth), ..self }
        } else {
            self
        }
    }
}

/// Once a depth has passed the test at a pixel, no depth that is equal or
/// farther passes there afterwards.
pub proof fn lemma_depth_test_monotone(t: TargetView, x: int, y: int, d: Fixed, later: Fixed)
    requires
        t.wf(),
        t.holds(x, y),
        t.depth_passes(x, y, d),
        later@ >= d@,
    ensures
        !t.depth_checked(x, y, d).depth_passes(x, y, later),
{
    lemma_cell_index(t.width as int, t.height as int, x, y);
}

/// The glyph that stands for a pixel, chosen by its alpha: a blank for zero,
/// then a light, a medium and a dark shade for alpha up to a quarter, a half
/// and three quarters, and a full block above that.
pub open spec fn glyph_of(rgba: u32) -> char {
    let alpha = Color::of_pixel(rgba).a@;
    if alpha == 0 {
        ' '
    } else if alpha <= 16384 {
        '\u{2591}'
    } else if alpha <= 32768 {
        '\u{2592}'
    } else if alpha <= 49152 {
        '\u{2593}'
    } else {
        '\u{2588}'
    }
}

/// The number of dashes in a border row: two for each column, and never fewer
/// than four.
pub open spec fn border_dashes(width: nat) -> nat {
    if width < 2 {
        4
    } else {
        2 * width
    }
}

/// A border row: a corner, the dashes, and the other corner.
pub open spec fn border_row(left: char, right: char, width: nat) -> Seq<char> {
    seq![left] + Seq::new(border_dashes(width), |i: int| '\u{2500}') + seq![right]
}

/// The text of row `y`: a bar, the glyph of each pixel twice, and a bar.
pub open spec fn pixel_row(t: TargetView, y: int) -> Seq<char> {
    seq!['\u{2502}'] + Seq::new(2 * t.width, |i: int| glyph_of(t.color_at(i / 2, y))) + seq![
        '\u{2502}',
    ]
}

/// The framed text picture of a target: a top border, one row of text for
/// each row of pixels, and a bottom border.
pub open spec fn ascii_spec(t: TargetView) -> Seq<Seq<char>> {
    Seq::new(
        t.height + 2,
        |r: int|
            if r == 0 {
                border_row('\u{250c}', '\u{2510}', t.width)
            } else if r == t.height + 1 {
                border_row('\u{2514}', '\u{2518}', t.width)
            } else {
                pixel_row(t, r - 1)
            },
    )
}

impl View for RenderTarget {
    type V = TargetView;

    closed spec fn view(&self) -> TargetView {
        TargetView {
            width: self.width as nat,
            height: self.height as nat,
            colors: self.color@,
            depths: self.depth@,
        }
    }
}

impl RenderTarget {
    /// Both buffers are well formed and have the size of the target, and the
    /// coordinates of every pixel fit in 32 bits.
    pub closed spec fn wf(&self) -> bool {
        &&& self.width <= u32::MAX
        &&& self.height <= u32::MAX
        &&& self.color.wf()
        &&& self.depth.wf()
        &&& self.color.spec_width() == self.width
        &&& self.color.spec_height() == self.height
        &&& self.depth.spec_width() == self.width
        &&& self.depth.spec_height() == self.height
    }

    /// A well-formed target has a well-formed view, and its size is within the
    /// limits.
    pub proof fn lemma_view_wf(&self)
        requires
            self.wf(),
        ensures
            self@.wf(),
            self@.width * self@.height <= usize::MAX,
            self@.width <= u32::MAX,
            self@.height <= u32::MAX,
    {
        self.color.lemma_len();
        self.depth.lemma_len();
    }

    /// A blank target of the given size. The coordinates of its pixels must
    /// fit in 32 bits and the number of its pixels in the machine word.
    pub fn new(width: usize, height: usize) -> (target: RenderTarget)
        requires
            width <= u32::MAX,
            height <= u32::MAX,
            width * height <= usize::MAX,
        ensures
            target.wf(),
            target@ == TargetView::blank(width as nat, height as nat),
    {
        let target = RenderTarget {
            width,
            height,
            color: Buffer::<u32>::new(width, height, 0u32),
            depth: Buffer::<Fixed>::new(width, height, Fixed::one()),
        };
        proof {
            assert(target@.colors =~= TargetView::blank(width as nat, height as nat).colors);
            assert(target@.depths =~= TargetView::blank(width as nat, height as nat).depths);
        }
        target
    }

    /// The number of columns.
    pub fn width(&self) -> (w: usize)
        ensures
            w == self@.width,
    {
        self.width
    }

    /// The number of rows.
    pub fn height(&self) -> (h: usize)
        ensures
            h == self@.height,
    {
        self.height
    }

    /// The packed colour of the pixel at `(x, y)`.
    pub fn color_at(&self, x: usize, y: usize) -> (rgba: u32)
        requires
            self.wf(),
            self@.holds(x as int, y as int),
        ensures
            rgba == self@.color_at(x as int, y as int),
    {
        *self.color.get(x, y)
    }

    /// The depth of the pixel at `(x, y)`.
    pub fn depth_at(&self, x: usize, y: usize) -> (depth: Fixed)
        requires
            self.wf(),
            self@.holds(x as int, y as int),
        ensures
            depth == self@.depth_at(x as int, y as int),
    {
        *self.depth.get(x, y)
    }

    /// Draws `src`, a colour with premultiplied alpha, over the pixel at `pos`:
    /// each stored channel is scaled by `1 - src.a`, `src` is added, and the
    /// result is clamped to `[0, 1]` and packed. No other pixel and no depth
    /// changes.
    pub fn paint(&mut self, pos: (usize, usize), src: &Color, op: CompositeMode)
        requires
            old(self).wf(),
            old(self)@.holds(pos.0 as int, pos.1 as int),
        ensures
            final(self).wf(),
            final(self)@ == old(self)@.painted(pos.0 as int, pos.1 as int, *src),
    {
        let dest: Color = Color::from_rgba32(self.color.get(pos.0, pos.1));
        let color: Color = match op {
            CompositeMode::SourceOver => dest.multiply(Fixed::one().sub(&src.a)) + *src,
        };
        let bytes: (u8, u8, u8, u8) = color.to_rgba32();
        self.color.put(pos, pack_rgba(bytes));
    }

    /// The depth test: returns true and stores `depth` if and only if `depth`
    /// is strictly less than the depth stored at `pos`. No colour changes.
    pub fn check_depth(&mut self, pos: (usize, usize), depth: Fixed) -> (passed: bool)
        requires
            old(self).wf(),
            old(self)@.holds(pos.0 as int, pos.1 as int),
        ensures
            final(self).wf(),
            passed == old(self)@.depth_passes(pos.0 as int, pos.1 as int, depth),
            final(self)@ == old(self)@.depth_checked(pos.0 as int, pos.1 as int, depth),
    {
        if depth.raw < self.depth.get(pos.0, pos.1).raw {
            self.depth.put(pos, depth);
            return true;
        }
        return false;
    }

    /// The ratio of width to height, rounded toward minus infinity and
    /// saturated; `None` exactly when the height is zero.
    pub fn aspect(&self) -> (ratio: Option<Fixed>)
        ensures
            self@.height == 0 ==> ratio is None,
            self@.height != 0 ==> ratio == Some(
                Fixed::of(floor_quot(self@.width as int * 65536, self@.height as int)),
            ),
    {
        if self.height == 0 {
            None
        } else {
            let q: i128 = div_floor(self.width as i128 * 65536, self.height as i128);
            Some(Fixed::from_raw(saturate(q)))
        }
    }

    /// The glyph of a pixel.
    fn glyph(rgba: u32) -> (g: char)
        ensures
            g == glyph_of(rgba),
    {
        let alpha: Fixed = Color::from_rgba32(&rgba).a;
        if alpha.raw == 0 {
            ' '
        } else if alpha.raw <= 16384 {
            '\u{2591}'
        } else if alpha.raw <= 32768 {
            '\u{2592}'
        } else if alpha.raw <= 49152 {
            '\u{2593}'
        } else {
            '\u{2588}'
        }
    }

    /// A border row.
    fn border(&self, left: char, right: char) -> (row: Vec<char>)
        ensures
            row@ == border_row(left, right, self@.width),
    {
        let mut row: Vec<char> = Vec::new();
        row.push(left);
        row.push('\u{2500}');
        row.push('\u{2500}');
        let mut i: usize = 1;
        while i + 1 < self.width
            invariant
                1 <= i,
                i < self.width || i == 1,
                row@ == seq![left] + Seq::new((2 * i) as nat, |k: int| '\u{2500}'),
            decreases self.width - i,
        {
            row.push('\u{2500}');
            row.push('\u{2500}');
            i = i + 1;
            assert(row@ =~= seq![left] + Seq::new((2 * i) as nat, |k: int| '\u{2500}'));
        }
        row.push('\u{2500}');
        row.push('\u{2500}');
        row.push(right);
        assert(row@ =~= border_row(left, right, self@.width));
        row
    }

    /// The framed text picture of the target, row by row: each pixel is two
    /// glyphs wide and its glyph is chosen by its alpha.
    pub fn ascii_rows(&self) -> (rows: Vec<Vec<char>>)
        requires
            self.wf(),
        ensures
            rows@.len() == ascii_spec(self@).len(),
            forall|r: int| 0 <= r < rows@.len() ==> (#[trigger] rows@[r])@ == ascii_spec(self@)[r],
    {
        let mut rows: Vec<Vec<char>> = Vec::new();
        rows.push(self.border('\u{250c}', '\u{2510}'));
        let mut y: usize = 0;
        while y < self.height
            invariant
                self.wf(),
                y <= self.height,
                rows@.len() == y + 1,
                forall|r: int|
                    0 <= r < rows@.len() ==> (#[trigger] rows@[r])@ == ascii_spec(self@)[r],
            decreases self.height - y,
        {
            let mut row: Vec<char> = Vec::new();
            row.push('\u{2502}');
            let mut x: usize = 0;
            while x < self.width
                invariant
                    self.wf(),
                    y < self.height,
                    x <= self.width,
                    row@ == seq!['\u{2502}'] + Seq::new(
                        (2 * x) as nat,
                        |i: int| glyph_of(self@.color_at(i / 2, y as int)),
                    ),
                decreases self.width - x,
            {
                let g: char = RenderTarget::glyph(self.color_at(x, y));
                row.push(g);
                row.push(g);
                x = x + 1;
                assert(row@ =~= seq!['\u{2502}'] + Seq::new(
                    (2 * x) as nat,
                    |i: int| glyph_of(self@.color_at(i / 2, y as int)),
                ));
            }
            row.push('\u{2502}');
            assert(row@ =~= pixel_row(self@, y as int));
            rows.push(row);
            y = y + 1;
        }
        rows.push(self.border('\u{2514}', '\u{2518}'));
        rows
    }
}

} // verus!
