//! Premultiplied-alpha colours and their packed 32-bit form.
//!
//! A packed pixel holds eight bits each of red, green, blue and alpha, from the
//! most significant byte to the least.

use crate::fixed::floor_quot;
use crate::fixed::lemma_floor_quot_bounds;
use crate::fixed::lemma_floor_quot_unique;
use crate::fixed::Fixed;
use vstd::prelude::*;
use vstd::std_specs::ops::AddSpecImpl;

verus! {

/// How a colour is combined with the pixel already stored.
#[derive(Clone, Copy, Debug, PartialEq, Eq, Structural)]
pub enum CompositeMode {
    /// The new colour is drawn on top: `stored * (1 - alpha) + colour`.
    SourceOver,
}

/// A colour with premultiplied alpha; each channel is nominally in `[0, 1]`.
#[derive(Clone, Copy, Debug, PartialEq, Eq, Structural)]
pub struct Color {
    pub r: Fixed,
    pub g: Fixed,
    pub b: Fixed,
    pub a: Fixed,
}

/// The channel value that stands for byte `k`: `k / 255`, rounded up.
pub open spec fn channel_of_byte(k: int) -> int {
    floor_quot(k * 65536 + 254, 255)
}

/// The byte that stands for channel value `c`: `c * 255` truncated, after `c`
/// is clamped to `[0, 1]`.
pub open spec fn byte_of_channel(c: int) -> int {
    if c <= 0 {
        0
    } else if c >= 65536 {
        255
    } else {
        floor_quot(c * 255, 65536)
    }
}

/// The packed pixel with the given channel bytes.
pub open spec fn pack_spec(r: int, g: int, b: int, a: int) -> int {
    r * 0x100_0000 + g * 0x1_0000 + b * 0x100 + a
}

/// The red byte of a packed pixel.
pub open spec fn red_byte(rgba: int) -> int {
    (rgba / 0x100_0000) % 0x100
}

/// The green byte of a packed pixel.
pub open spec fn green_byte(rgba: int) -> int {
    (rgba / 0x1_0000) % 0x100
}

/// The blue byte of a packed pixel.
pub open spec fn blue_byte(rgba: int) -> int {
    (rgba / 0x100) % 0x100
}

/// The alpha byte of a packed pixel.
pub open spec fn alpha_byte(rgba: int) -> int {
    rgba % 0x100
}

/// Packs four channel bytes into one pixel, red in the most significant byte.
pub fn pack_rgba(channels: (u8, u8, u8, u8)) -> (rgba: u32)
    ensures
        rgba == pack_spec(channels.0 as int, channels.1 as int, channels.2 as int, channels.3 as int),
{
    let r: u32 = channels.0 as u32;
    let g: u32 = channels.1 as u32;
    let b: u32 = channels.2 as u32;
    let a: u32 = channels.3 as u32;
    assert(((r << 24) | (g << 16) | (b << 8) | a) == r * 0x100_0000 + g * 0x1_0000 + b * 0x100 + a)
        by (bit_vector)
        requires
            r < 256,
            g < 256,
            b < 256,
            a < 256,
    ;
    (r << 24) | (g << 16) | (b << 8) | a
}

/// Splits a packed pixel into its four channel bytes.
pub fn unpack_rgba(rgba: u32) -> (channels: (u8, u8, u8, u8))
    ensures
        channels.0 == red_byte(rgba as int),
        channels.1 == green_byte(rgba as int),
        channels.2 == blue_byte(rgba as int),
        channels.3 == alpha_byte(rgba as int),
{
    assert((rgba >> 24) & 0xff == (rgba / 0x100_0000) % 0x100) by (bit_vector);
    assert((rgba >> 16) & 0xff == (rgba / 0x1_0000) % 0x100) by (bit_vector);
    assert((rgba >> 8) & 0xff == (rgba / 0x100) % 0x100) by (bit_vector);
    assert((rgba >> 0) & 0xff == rgba % 0x100) by (bit_vector);
    (
        ((rgba >> 24) & 0xff) as u8,
        ((rgba >> 16) & 0xff) as u8,
        ((rgba >> 8) & 0xff) as u8,
        ((rgba >> 0) & 0xff) as u8,
    )
}

/// The byte arithmetic behind [`lemma_unpack_pack`], on machine words.
proof fn lemma_unpack_pack_words(r: u32, g: u32, b: u32, a: u32)
    by (bit_vector)
    requires
        r < 256,
        g < 256,
        b < 256,
        a < 256,
    ensures
        r * 0x100_0000 + g * 0x1_0000 + b * 0x100 + a <= 0xffff_ffff,
        ((r * 0x100_0000 + g * 0x1_0000 + b * 0x100 + a) / 0x100_0000) % 0x100 == r,
        ((r * 0x100_0000 + g * 0x1_0000 + b * 0x100 + a) / 0x1_0000) % 0x100 == g,
        ((r * 0x100_0000 + g * 0x1_0000 + b * 0x100 + a) / 0x100) % 0x100 == b,
        (r * 0x100_0000 + g * 0x1_0000 + b * 0x100 + a) % 0x100 == a,
{
}

/// The byte arithmetic behind [`lemma_pack_unpack`], on machine words.
proof fn lemma_pack_unpack_words(rgba: u32)
    by (bit_vector)
    ensures
        ((rgba / 0x100_0000) % 0x100) * 0x100_0000 + ((rgba / 0x1_0000) % 0x100) * 0x1_0000 + ((rgba
            / 0x100) % 0x100) * 0x100 + rgba % 0x100 == rgba,
{
}

/// Unpacking a packed pixel gives back the four bytes it was made of.
pub proof fn lemma_unpack_pack(r: int, g: int, b: int, a: int)
    requires
        0 <= r < 256,
        0 <= g < 256,
        0 <= b < 256,
        0 <= a < 256,
    ensures
        0 <= pack_spec(r, g, b, a) <= u32::MAX,
        red_byte(pack_spec(r, g, b, a)) == r,
        green_byte(pack_spec(r, g, b, a)) == g,
        blue_byte(pack_spec(r, g, b, a)) == b,
        alpha_byte(pack_spec(r, g, b, a)) == a,
{
    lemma_unpack_pack_words(r as u32, g as u32, b as u32, a as u32);
}

/// Packing the four bytes of a pixel gives back the pixel.
pub proof fn lemma_pack_unpack(rgba: int)
    requires
        0 <= rgba <= u32::MAX,
    ensures
        pack_spec(red_byte(rgba), green_byte(rgba), blue_byte(rgba), alpha_byte(rgba)) == rgba,
        0 <= red_byte(rgba) < 256,
        0 <= green_byte(rgba) < 256,
        0 <= blue_byte(rgba) < 256,
        0 <= alpha_byte(rgba) < 256,
{
    lemma_pack_unpack_words(rgba as u32);
}

/// A byte survives the trip to a channel value and back.
pub proof fn lemma_byte_channel_byte(k: int)
    requires
        0 <= k < 256,
    ensures
        0 <= channel_of_byte(k) <= 65536,
        byte_of_channel(channel_of_byte(k)) == k,
{
    let c = channel_of_byte(k);
    lemma_floor_quot_bounds(k * 65536 + 254, 255);
    if 0 < c < 65536 {
        lemma_floor_quot_unique(c * 255, 65536, k);
    }
}

/// A channel value in `[0, 1]` comes back from its byte no larger than it was
/// and less than `1 / 255` smaller.
pub proof fn lemma_channel_byte_channel(c: int)
    requires
        0 <= c <= 65536,
    ensures
        0 <= byte_of_channel(c) < 256,
        channel_of_byte(byte_of_channel(c)) <= c,
        (c - channel_of_byte(byte_of_channel(c))) * 255 < 65536,
{
    let k = byte_of_channel(c);
    if 0 < c < 65536 {
        lemma_floor_quot_bounds(c * 255, 65536);
    }
    lemma_floor_quot_bounds(k * 65536 + 254, 255);
}

impl Color {
    /// The colour that a packed pixel stands for.
    pub open spec fn of_pixel(rgba: u32) -> Color {
        Color {
            r: Fixed::of(channel_of_byte(red_byte(rgba as int))),
            g: Fixed::of(channel_of_byte(green_byte(rgba as int))),
            b: Fixed::of(channel_of_byte(blue_byte(rgba as int))),
            a: Fixed::of(channel_of_byte(alpha_byte(rgba as int))),
        }
    }

    /// The packed pixel that stands for this colour.
    pub open spec fn pixel(self) -> u32 {
        pack_spec(
            byte_of_channel(self.r@),
            byte_of_channel(self.g@),
            byte_of_channel(self.b@),
            byte_of_channel(self.a@),
        ) as u32
    }

    /// Every channel scaled by `val`.
    pub open spec fn times(self, val: Fixed) -> Color {
        Color {
            r: self.r.times(val),
            g: self.g.times(val),
            b: self.b.times(val),
            a: self.a.times(val),
        }
    }

    /// The channel-wise sum.
    pub open spec fn plus(self, rhs: Color) -> Color {
        Color {
            r: self.r.plus(rhs.r),
            g: self.g.plus(rhs.g),
            b: self.b.plus(rhs.b),
            a: self.a.plus(rhs.a),
        }
    }

    /// Every channel lies in `[0, 1]`.
    pub open spec fn in_unit_range(self) -> bool {
        &&& 0 <= self.r@ <= 65536
        &&& 0 <= self.g@ <= 65536
        &&& 0 <= self.b@ <= 65536
        &&& 0 <= self.a@ <= 65536
    }

    /// The colour is a valid premultiplied one: alpha lies in `[0, 1]` and no
    /// other channel exceeds it.
    pub open spec fn premultiplied(self) -> bool {
        &&& 0 <= self.a@ <= 65536
        &&& 0 <= self.r@ <= self.a@
        &&& 0 <= self.g@ <= self.a@
        &&& 0 <= self.b@ <= self.a@
    }

    /// Opaque white.
    pub fn white() -> (c: Color)
        ensures
            c == (Color { r: Fixed::of(65536), g: Fixed::of(65536), b: Fixed::of(65536), a: Fixed::of(65536) }),
    {
        Color::new(Fixed::one(), Fixed::one(), Fixed::one(), Fixed::one())
    }

    /// Transparent black.
    pub fn zero() -> (c: Color)
        ensures
            c == (Color { r: Fixed::of(0), g: Fixed::of(0), b: Fixed::of(0), a: Fixed::of(0) }),
    {
        Color::new(Fixed::zero(), Fixed::zero(), Fixed::zero(), Fixed::zero())
    }

    /// The colour with the given channels.
    pub fn new(r: Fixed, g: Fixed, b: Fixed, a: Fixed) -> (c: Color)
        ensures
            c == (Color { r, g, b, a }),
    {
        Color { r, g, b, a }
    }

    /// The colour that a packed pixel stands for: each byte `k` becomes the
    /// channel value `k / 255`, rounded up.
    pub fn from_rgba32(rgba: &u32) -> (c: Color)
        ensures
            c == Color::of_pixel(*rgba),
    {
        let bytes: (u8, u8, u8, u8) = unpack_rgba(*rgba);
        Color {
            r: channel_from_byte(bytes.0),
            g: channel_from_byte(bytes.1),
            b: channel_from_byte(bytes.2),
            a: channel_from_byte(bytes.3),
        }
    }

    /// The four channel bytes: each channel is clamped to `[0, 1]`, scaled by
    /// 255 and truncated.
    pub fn to_rgba32(&self) -> (bytes: (u8, u8, u8, u8))
        ensures
            bytes.0 == byte_of_channel(self.r@),
            bytes.1 == byte_of_channel(self.g@),
            bytes.2 == byte_of_channel(self.b@),
            bytes.3 == byte_of_channel(self.a@),
            pack_spec(bytes.0 as int, bytes.1 as int, bytes.2 as int, bytes.3 as int)
                == self.pixel(),
    {
        let bytes: (u8, u8, u8, u8) = (
            byte_from_channel(self.r),
            byte_from_channel(self.g),
            byte_from_channel(self.b),
            byte_from_channel(self.a),
        );
        proof {
            lemma_unpack_pack(bytes.0 as int, bytes.1 as int, bytes.2 as int, bytes.3 as int);
        }
        bytes
    }

    /// The colour with alpha divided out of red, green and blue; `None` exactly
    /// when alpha is zero.
    pub fn unpremultiply(&self) -> (c: Option<Color>)
        ensures
            self.a@ == 0 ==> c is None,
            self.a@ != 0 ==> c == Some(
                Color {
                    r: self.r.over(self.a),
                    g: self.g.over(self.a),
                    b: self.b.over(self.a),
                    a: self.a,
                },
            ),
    {
        match (self.r.div(&self.a), self.g.div(&self.a), self.b.div(&self.a)) {
            (Some(r), Some(g), Some(b)) => Some(Color { r, g, b, a: self.a }),
            _ => None,
        }
    }

    /// Every channel scaled by `val`.
    pub fn multiply(&self, val: Fixed) -> (c: Color)
        ensures
            c == self.times(val),
    {
        Color::new(self.r.mul(&val), self.g.mul(&val), self.b.mul(&val), self.a.mul(&val))
    }
}

/// The channel value of byte `k`.
fn channel_from_byte(k: u8) -> (c: Fixed)
    ensures
        c == Fixed::of(channel_of_byte(k as int)),
{
    let wide: i32 = k as i32;
    Fixed::from_raw((wide * 65536 + 254) / 255)
}

/// The byte of channel value `c`.
fn byte_from_channel(c: Fixed) -> (k: u8)
    ensures
        k == byte_of_channel(c@),
{
    if c.raw <= 0 {
        0
    } else if c.raw >= 65536 {
        255
    } else {
        let wide: i64 = c.raw as i64;
        ((wide * 255) / 65536) as u8
    }
}

impl core::ops::Add for Color {
    type Output = Color;

    /// The channel-wise saturating sum.
    fn add(self, rhs: Color) -> (c: Color) {
        Color::new(self.r.add(&rhs.r), self.g.add(&rhs.g), self.b.add(&rhs.b), self.a.add(&rhs.a))
    }
}

impl AddSpecImpl for Color {
    open spec fn obeys_add_spec() -> bool {
        true
    }

    open spec fn add_req(self, rhs: Color) -> bool {
        true
    }

    open spec fn add_spec(self, rhs: Color) -> Color {
        self.plus(rhs)
    }
}

/// The pixel that results from drawing `src` over the pixel `stored`.
pub open spec fn source_over(stored: u32, src: Color) -> u32 {
    Color::of_pixel(stored).times(Fixed::of(65536).minus(src.a)).plus(src).pixel()
}

/// A pixel converted to a colour and back is the same pixel.
pub proof fn lemma_pixel_round_trip(rgba: u32)
    ensures
        Color::of_pixel(rgba).pixel() == rgba,
        Color::of_pixel(rgba).in_unit_range(),
{
    lemma_pack_unpack(rgba as int);
    lemma_byte_channel_byte(red_byte(rgba as int));
    lemma_byte_channel_byte(green_byte(rgba as int));
    lemma_byte_channel_byte(blue_byte(rgba as int));
    lemma_byte_channel_byte(alpha_byte(rgba as int));
}

/// A colour with every channel in `[0, 1]`, packed into a pixel and unpacked
/// again, comes back with each channel no larger than it was and less than
/// `1 / 255` smaller.
pub proof fn lemma_color_round_trip(c: Color)
    requires
        c.in_unit_range(),
    ensures
        ({
            let back = Color::of_pixel(c.pixel());
            &&& back.r@ <= c.r@ && (c.r@ - back.r@) * 255 < 65536
            &&& back.g@ <= c.g@ && (c.g@ - back.g@) * 255 < 65536
            &&& back.b@ <= c.b@ && (c.b@ - back.b@) * 255 < 65536
            &&& back.a@ <= c.a@ && (c.a@ - back.a@) * 255 < 65536
        }),
{
    lemma_channel_byte_channel(c.r@);
    lemma_channel_byte_channel(c.g@);
    lemma_channel_byte_channel(c.b@);
    lemma_channel_byte_channel(c.a@);
    lemma_unpack_pack(
        byte_of_channel(c.r@),
        byte_of_channel(c.g@),
        byte_of_channel(c.b@),
        byte_of_channel(c.a@),
    );
}

/// Drawing an opaque colour over a pixel replaces the pixel: nothing of what
/// was stored shows through.
pub proof fn lemma_opaque_source_over(stored: u32, src: Color)
    requires
        src.a@ == 65536,
    ensures
        source_over(stored, src) == src.pixel(),
{
    let dest = Color::of_pixel(stored);
    let keep = Fixed::of(65536).minus(src.a);
    assert(keep@ == 0);
    assert(dest.r@ * keep@ == 0 && dest.g@ * keep@ == 0 && dest.b@ * keep@ == 0 && dest.a@ * keep@
        == 0) by (nonlinear_arith)
        requires
            keep@ == 0,
    ;
    assert(dest.times(keep).plus(src) == src);
}

/// Drawing a fully transparent premultiplied colour over a pixel leaves the
/// pixel as it was.
pub proof fn lemma_transparent_source_over(stored: u32, src: Color)
    requires
        src.premultiplied(),
        src.a@ == 0,
    ensures
        source_over(stored, src) == stored,
{
    lemma_pixel_round_trip(stored);
    let dest = Color::of_pixel(stored);
    let keep = Fixed::of(65536).minus(src.a);
    assert(keep@ == 65536);
    assert(dest.r@ * keep@ == dest.r@ * 65536 && dest.g@ * keep@ == dest.g@ * 65536 && dest.b@
        * keep@ == dest.b@ * 65536 && dest.a@ * keep@ == dest.a@ * 65536) by (nonlinear_arith)
        requires
            keep@ == 65536,
    ;
    lemma_floor_quot_unique(dest.r@ * 65536, 65536, dest.r@);
    lemma_floor_quot_unique(dest.g@ * 65536, 65536, dest.g@);
    lemma_floor_quot_unique(dest.b@ * 65536, 65536, dest.b@);
    lemma_floor_quot_unique(dest.a@ * 65536, 65536, dest.a@);
    assert(dest.times(keep).plus(src) == dest);
}

} // verus!
