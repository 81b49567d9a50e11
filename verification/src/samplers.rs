//! Sub-pixel sampling strategies.
//!
//! A sample is a triple `(x, y, weight)`: a position in buffer-pixel space and
//! the share of the pixel that it stands for.

use crate::fixed::Coord;
use crate::fixed::Fixed;
use vstd::arithmetic::div_mod::lemma_fundamental_div_mod_converse;
use vstd::arithmetic::power2::lemma2_to64;
use vstd::arithmetic::power2::lemma_pow2_unfold;
use vstd::arithmetic::power2::pow2;
use vstd::prelude::*;

verus! {

/// The sum of the weights of a list of samples, in raw units.
pub open spec fn weight_sum(points: Seq<(Coord, Coord, Fixed)>) -> int
    decreases points.len(),
{
    if points.len() == 0 {
        0
    } else {
        weight_sum(points.drop_last()) + points.last().2@
    }
}

/// Appending a sample adds its weight to the sum.
pub proof fn lemma_weight_sum_push(points: Seq<(Coord, Coord, Fixed)>, p: (Coord, Coord, Fixed))
    ensures
        weight_sum(points.push(p)) == weight_sum(points) + p.2@,
{
    assert(points.push(p).drop_last() =~= points);
}

/// Given a pixel, provides the sample points inside it.
pub trait Sampler {
    /// Whether this sampler is configured so that it can be used.
    spec fn usable(&self) -> bool;

    /// The samples of the pixel at column `x` and row `y`.
    spec fn samples(&self, x: u32, y: u32) -> Seq<(Coord, Coord, Fixed)>;

    /// The samples of the pixel at column `x` and row `y`; their weights sum
    /// to one.
    fn sample(&self, x: u32, y: u32) -> (points: Vec<(Coord, Coord, Fixed)>)
        requires
            self.usable(),
        ensures
            points@ == self.samples(x, y),
            weight_sum(points@) == 65536,
    ;
}

/// A uniform grid of samples: with power `k` the pixel is cut into
/// `2^(k-1)` by `2^(k-1)` cells and sampled at the centre of each.
///
/// Powers from one to nine are usable; beyond nine a single weight would be
/// smaller than the smallest positive number.
#[derive(Clone, Copy, Debug)]
pub struct SimpleMultiSampler(pub u32);

/// The number of cells along one side of the grid for the given power.
pub open spec fn grid_side(power: u32) -> int {
    pow2((power - 1) as nat) as int
}

/// Sample `i` of the pixel at `(x, y)`: the centre of the cell in column
/// `i / n` and row `i % n` of the grid of side `n`, weighted `1 / n^2`.
pub open spec fn grid_sample(power: u32, x: u32, y: u32, i: int) -> (Coord, Coord, Fixed) {
    let n = grid_side(power);
    (
        Coord { raw: (x * 65536 + cell_centre(n, i / n)) as i64 },
        Coord { raw: (y * 65536 + cell_centre(n, i % n)) as i64 },
        Fixed::of(65536int / (n * n)),
    )
}

/// The distance from the edge of a pixel to the centre of cell `k` of the `n`
/// cells along one side: `(2 * k + 1) / (2 * n)`.
pub open spec fn cell_centre(n: int, k: int) -> int {
    (2 * k + 1) * (32768int / n)
}

/// For a usable power the side of the grid is a power of two up to 256.
pub proof fn lemma_grid_side(power: u32)
    requires
        1 <= power <= 9,
    ensures
        grid_side(power) == 1 || grid_side(power) == 2 || grid_side(power) == 4 || grid_side(power)
            == 8 || grid_side(power) == 16 || grid_side(power) == 32 || grid_side(power) == 64
            || grid_side(power) == 128 || grid_side(power) == 256,
        power == 1 <==> grid_side(power) == 1,
{
    lemma2_to64();
}

/// The centre of every cell of a usable grid lies strictly inside the pixel.
pub proof fn lemma_cell_centre(n: int, k: int)
    requires
        n == 1 || n == 2 || n == 4 || n == 8 || n == 16 || n == 32 || n == 64 || n == 128 || n
            == 256,
        0 <= k < n,
    ensures
        0 < cell_centre(n, k) < 65536,
{
    let half = 32768int / n;
    assert(2 * n * half == 65536 && half > 0) by (nonlinear_arith)
        requires
            n == 1 || n == 2 || n == 4 || n == 8 || n == 16 || n == 32 || n == 64 || n == 128 || n
                == 256,
            half == 32768int / n,
    ;
    assert(0 < (2 * k + 1) * half < 65536) by (nonlinear_arith)
        requires
            0 <= k < n,
            2 * n * half == 65536,
            half > 0,
    ;
}

/// Every sample of a usable grid lies strictly inside its own pixel, whatever
/// the pixel: its position is the pixel's corner plus the centre of its cell.
pub proof fn lemma_grid_sample_inside_pixel(power: u32, x: u32, y: u32, i: int)
    requires
        1 <= power <= 9,
        0 <= i < grid_side(power) * grid_side(power),
    ensures
        grid_sample(power, x, y, i).0@ == x * 65536 + cell_centre(
            grid_side(power),
            i / grid_side(power),
        ),
        grid_sample(power, x, y, i).1@ == y * 65536 + cell_centre(
            grid_side(power),
            i % grid_side(power),
        ),
        x * 65536 < grid_sample(power, x, y, i).0@ < (x + 1) * 65536,
        y * 65536 < grid_sample(power, x, y, i).1@ < (y + 1) * 65536,
{
    let n = grid_side(power);
    lemma_grid_side(power);
    let col = i / n;
    let row = i % n;
    vstd::arithmetic::div_mod::lemma_fundamental_div_mod(i, n);
    assert(0 <= col < n) by (nonlinear_arith)
        requires
            0 <= i < n * n,
            i == n * col + row,
            0 <= row < n,
            n > 0,
    ;
    lemma_cell_centre(n, col);
    lemma_cell_centre(n, row);
}

/// The samples move with the pixel: sample `i` of another pixel is sample `i`
/// of this one, shifted by the distance between the two pixels, and weighted
/// alike.
pub proof fn lemma_grid_sample_shifts(power: u32, x: u32, y: u32, to_x: u32, to_y: u32, i: int)
    requires
        1 <= power <= 9,
        0 <= i < grid_side(power) * grid_side(power),
    ensures
        grid_sample(power, to_x, to_y, i).0@ == grid_sample(power, x, y, i).0@ + (to_x - x) * 65536,
        grid_sample(power, to_x, to_y, i).1@ == grid_sample(power, x, y, i).1@ + (to_y - y) * 65536,
        grid_sample(power, to_x, to_y, i).2 == grid_sample(power, x, y, i).2,
{
    lemma_grid_sample_inside_pixel(power, x, y, i);
    lemma_grid_sample_inside_pixel(power, to_x, to_y, i);
}

impl SimpleMultiSampler {
    /// The side of the grid.
    fn side(&self) -> (n: u32)
        requires
            1 <= self.0 <= 9,
        ensures
            n == grid_side(self.0),
    {
        let mut n: u32 = 1;
        let mut e: u32 = 1;
        proof {
            lemma2_to64();
        }
        while e < self.0
            invariant
                1 <= e <= self.0 <= 9,
                n == pow2((e - 1) as nat),
                n <= 256,
            decreases self.0 - e,
        {
            proof {
                lemma2_to64();
                lemma_pow2_unfold(e as nat);
            }
            n = n * 2;
            e = e + 1;
        }
        n
    }
}

impl Sampler for SimpleMultiSampler {
    open spec fn usable(&self) -> bool {
        1 <= self.0 <= 9
    }

    open spec fn samples(&self, x: u32, y: u32) -> Seq<(Coord, Coord, Fixed)> {
        Seq::new(
            (grid_side(self.0) * grid_side(self.0)) as nat,
            |i: int| grid_sample(self.0, x, y, i),
        )
    }

    fn sample(&self, x: u32, y: u32) -> (points: Vec<(Coord, Coord, Fixed)>) {
        let n: u32 = self.side();
        proof {
            lemma_grid_side(self.0);
        }
        let half: i64 = 32768 / (n as i64);
        let weight: Fixed = Fixed::from_raw((65536 / (n * n)) as i32);
        let mut points: Vec<(Coord, Coord, Fixed)> = Vec::new();
        let mut xp: u32 = 0;
        while xp < n
            invariant
                xp <= n,
                1 <= self.0 <= 9,
                1 <= n <= 256,
                n == grid_side(self.0),
                half == 32768int / (n as int),
                0 <= half <= 32768,
                weight@ == 65536int / (n * n),
                points@.len() == xp * n,
                forall|i: int| 0 <= i < points@.len() ==> points@[i] == grid_sample(self.0, x, y, i),
                weight_sum(points@) == points@.len() * weight@,
            decreases n - xp,
        {
            let mut yp: u32 = 0;
            while yp < n
                invariant
                    xp < n,
                    yp <= n,
                    1 <= self.0 <= 9,
                    1 <= n <= 256,
                    n == grid_side(self.0),
                    half == 32768int / (n as int),
                    0 <= half <= 32768,
                    weight@ == 65536int / (n * n),
                    points@.len() == xp * n + yp,
                    forall|i: int|
                        0 <= i < points@.len() ==> points@[i] == grid_sample(self.0, x, y, i),
                    weight_sum(points@) == points@.len() * weight@,
                decreases n - yp,
            {
                let cx: i64 = 2 * (xp as i64) + 1;
                let cy: i64 = 2 * (yp as i64) + 1;
                assert(0 <= cx * half <= 0x100_0000 && 0 <= cy * half <= 0x100_0000)
                    by (nonlinear_arith)
                    requires
                        0 <= cx <= 512,
                        0 <= cy <= 512,
                        0 <= half <= 32768,
                ;
                let sx: i64 = x as i64 * 65536 + cx * half;
                let sy: i64 = y as i64 * 65536 + cy * half;
                let p: (Coord, Coord, Fixed) = (Coord::from_raw(sx), Coord::from_raw(sy), weight);
                proof {
                    let i = xp * n + yp;
                    assert(xp * n == n * xp) by (nonlinear_arith);
                    lemma_fundamental_div_mod_converse(i, n as int, xp as int, yp as int);
                    lemma_weight_sum_push(points@, p);
                    assert((points@.len() + 1) * weight@ == points@.len() * weight@ + weight@)
                        by (nonlinear_arith);
                    lemma_grid_side(self.0);
                    lemma_cell_centre(n as int, xp as int);
                    lemma_cell_centre(n as int, yp as int);
                    assert(cx * half == cell_centre(n as int, xp as int));
                    assert(cy * half == cell_centre(n as int, yp as int));
                    assert(p == grid_sample(self.0, x, y, i));
                }
                points.push(p);
                yp = yp + 1;
            }
            assert((xp + 1) * n == xp * n + n) by (nonlinear_arith);
            xp = xp + 1;
        }
        assert(points@ =~= self.samples(x, y));
        assert(points@.len() * weight@ == 65536) by (nonlinear_arith)
            requires
                n == 1 || n == 2 || n == 4 || n == 8 || n == 16 || n == 32 || n == 64 || n == 128
                    || n == 256,
                points@.len() == n * n,
                weight@ == 65536int / (n * n),
        ;
        points
    }
}

} // verus!
