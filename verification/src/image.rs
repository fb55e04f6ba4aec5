//! Radiance values and the accumulation image.
//!
//! An `RGB` holds three non-negative raw fixed-point channels, capped at
//! `RGB_CAP` (additions and multiplications saturate there, the integer
//! stand-in for arbitrarily large radiance).  An `Image` accumulates whole
//! frames: each pixel holds the exact per-channel sum of the frames blended
//! so far and `iters` counts them, so the represented running average
//! `sum / iters` weighs every frame equally whatever order they arrive in.

use vstd::prelude::*;

use crate::fixed::{divt, divt_i128, fmul, smin_int, SCALE};

verus! {

/// The saturation cap for radiance channels.
pub const RGB_CAP: i64 = 0x200000000000;

/// A radiance triple of raw fixed-point channels.
#[derive(Clone, Copy, Debug, PartialEq, Eq, Structural)]
pub struct RGB {
    pub r: i64,
    pub g: i64,
    pub b: i64,
}

/// Channels non-negative and within the cap.
pub open spec fn rgb_wf(c: RGB) -> bool {
    &&& 0 <= c.r <= RGB_CAP
    &&& 0 <= c.g <= RGB_CAP
    &&& 0 <= c.b <= RGB_CAP
}

/// Saturating channel addition.
pub open spec fn chan_add(a: int, b: int) -> int {
    smin_int(a + b, RGB_CAP as int)
}

/// Saturating fixed-point channel multiplication.
pub open spec fn chan_mul(a: int, b: int) -> int {
    smin_int(fmul(a, b), RGB_CAP as int)
}

/// The channel-wise saturating sum of two radiance values.
pub open spec fn rgb_add(a: RGB, b: RGB) -> RGB {
    RGB {
        r: chan_add(a.r as int, b.r as int) as i64,
        g: chan_add(a.g as int, b.g as int) as i64,
        b: chan_add(a.b as int, b.b as int) as i64,
    }
}

/// The channel-wise saturating product of two radiance values.
pub open spec fn rgb_mul(a: RGB, b: RGB) -> RGB {
    RGB {
        r: chan_mul(a.r as int, b.r as int) as i64,
        g: chan_mul(a.g as int, b.g as int) as i64,
        b: chan_mul(a.b as int, b.b as int) as i64,
    }
}

/// The radiance scaled by a non-negative raw scalar.
pub open spec fn rgb_scale(a: RGB, t: int) -> RGB {
    RGB {
        r: chan_mul(a.r as int, t) as i64,
        g: chan_mul(a.g as int, t) as i64,
        b: chan_mul(a.b as int, t) as i64,
    }
}

/// One saturating channel product, computed wide.
fn chan_mul_exec(a: i64, b: i64) -> (r: i64)
    requires
        0 <= a <= RGB_CAP,
        0 <= b <= RGB_CAP,
    ensures
        r == chan_mul(a as int, b as int),
        0 <= r <= RGB_CAP,
{
    proof {
        crate::fixed::lemma_mul_abs_bound(a as int, b as int, RGB_CAP as int, RGB_CAP as int);
        assert((a as int) * (b as int) >= 0) by (nonlinear_arith)
            requires
                a >= 0,
                b >= 0,
        ;
    }
    let p: i128 = (a as i128) * (b as i128);
    let q = divt_i128(p, SCALE as i128);
    if q > RGB_CAP as i128 {
        RGB_CAP
    } else {
        q as i64
    }
}

impl RGB {
    /// Builds a radiance value from raw channels.
    pub fn new(r: i64, g: i64, b: i64) -> (c: RGB)
        ensures
            c == (RGB { r, g, b }),
    {
        RGB { r, g, b }
    }

    /// Channel-wise saturating addition.
    pub fn add_v(&self, c: &RGB) -> (o: RGB)
        requires
            rgb_wf(*self),
            rgb_wf(*c),
        ensures
            o == rgb_add(*self, *c),
            rgb_wf(o),
    {
        let rr = self.r + c.r;
        let gg = self.g + c.g;
        let bb = self.b + c.b;
        RGB {
            r: if rr > RGB_CAP {
                RGB_CAP
            } else {
                rr
            },
            g: if gg > RGB_CAP {
                RGB_CAP
            } else {
                gg
            },
            b: if bb > RGB_CAP {
                RGB_CAP
            } else {
                bb
            },
        }
    }

    /// Channel-wise saturating multiplication.
    pub fn mul_v(&self, c: &RGB) -> (o: RGB)
        requires
            rgb_wf(*self),
            rgb_wf(*c),
        ensures
            o == rgb_mul(*self, *c),
            rgb_wf(o),
    {
        RGB {
            r: chan_mul_exec(self.r, c.r),
            g: chan_mul_exec(self.g, c.g),
            b: chan_mul_exec(self.b, c.b),
        }
    }

    /// Scaling by a non-negative raw scalar, saturating.
    pub fn mul_t(&self, c: i64) -> (o: RGB)
        requires
            rgb_wf(*self),
            0 <= c <= RGB_CAP,
        ensures
            o == rgb_scale(*self, c as int),
            rgb_wf(o),
    {
        RGB {
            r: chan_mul_exec(self.r, c),
            g: chan_mul_exec(self.g, c),
            b: chan_mul_exec(self.b, c),
        }
    }

    /// No radiance.
    pub fn black() -> (c: RGB)
        ensures
            c == (RGB { r: 0i64, g: 0i64, b: 0i64 }),
            rgb_wf(c),
    {
        RGB { r: 0, g: 0, b: 0 }
    }

    /// Unit radiance on every channel.
    pub fn white() -> (c: RGB)
        ensures
            c == (RGB { r: SCALE, g: SCALE, b: SCALE }),
            rgb_wf(c),
    {
        RGB { r: SCALE, g: SCALE, b: SCALE }
    }

    /// Unit radiance on the red channel only.
    pub fn red() -> (c: RGB)
        ensures
            c == (RGB { r: SCALE, g: 0i64, b: 0i64 }),
            rgb_wf(c),
    {
        RGB { r: SCALE, g: 0, b: 0 }
    }

    /// Unit radiance on the blue channel only.
    pub fn blue() -> (c: RGB)
        ensures
            c == (RGB { r: 0i64, g: 0i64, b: SCALE }),
            rgb_wf(c),
    {
        RGB { r: 0, g: 0, b: SCALE }
    }
}

/// Clamps a channel to at most one unit, for export.
pub fn clamp(x: i64) -> (r: i64)
    ensures
        r == if x > SCALE {
            SCALE as int
        } else {
            x as int
        },
{
    if x > SCALE {
        SCALE
    } else {
        x
    }
}

/// Quantizes a non-negative channel to an 8-bit level for display.
pub fn f2i(x: i64) -> (r: u32)
    requires
        x >= 0,
    ensures
        r == divt(smin_int(x as int, SCALE as int) * 255, SCALE as int),
        r <= 255,
{
    let v = clamp(x);
    proof {
        crate::fixed::lemma_divt_ordered(v as int * 255, 65536int * 255, 65536);
        assert(divt(65536int * 255, 65536) == 255) by {
            vstd::arithmetic::div_mod::lemma_div_multiples_vanish(255, 65536);
        }
        crate::fixed::lemma_divt_abs_le(v as int * 255, 65536, 65536int * 255);
        vstd::arithmetic::div_mod::lemma_div_pos_is_pos(v as int * 255, 65536);
    }
    let q = crate::fixed::divt_i64(v * 255, SCALE);
    q as u32
}

/// A frame or accumulation buffer: a row-major pixel vector, the counted
/// number of blended frames, and the dimensions.
pub struct Image {
    pub data: Vec<RGB>,
    pub iters: usize,
    pub w: usize,
    pub h: usize,
}

/// The image invariant: the buffer covers the dimensions exactly and every
/// pixel is a well-formed radiance value.
pub open spec fn image_wf(img: Image) -> bool {
    &&& img.data.len() == img.w * img.h
    &&& img.w <= 0x8000
    &&& img.h <= 0x8000
    &&& img.iters <= 0x10000000
    &&& forall|i: int| 0 <= i < img.data.len() ==> rgb_wf(#[trigger] img.data[i])
}

/// Channel-wise ordering of radiance values.
pub open spec fn rgb_le(a: RGB, b: RGB) -> bool {
    &&& a.r <= b.r
    &&& a.g <= b.g
    &&& a.b <= b.b
}

/// One blend step on a whole buffer: the channel-wise saturating sum.
pub open spec fn blend_frames(acc: Seq<RGB>, f: Seq<RGB>) -> Seq<RGB> {
    Seq::new(acc.len(), |i: int| rgb_add(acc[i], f[i]))
}

/// Saturating channel addition of non-negative values is commutative in
/// the frame being blended: both orders give the capped total.
proof fn lemma_chan_add_comm(x: int, a: int, b: int)
    requires
        0 <= x,
        0 <= a,
        0 <= b,
    ensures
        chan_add(chan_add(x, a), b) == chan_add(chan_add(x, b), a),
{
}

/// Blending two frames into an accumulator gives the same buffer in either
/// order: with every pixel a capped running sum, each frame contributes the
/// same amount whenever it arrives.
pub proof fn lemma_blend_order_independent(acc: Seq<RGB>, f1: Seq<RGB>, f2: Seq<RGB>)
    requires
        f1.len() == acc.len(),
        f2.len() == acc.len(),
        forall|i: int| 0 <= i < acc.len() ==> rgb_wf(#[trigger] acc[i]),
        forall|i: int| 0 <= i < acc.len() ==> rgb_wf(#[trigger] f1[i]),
        forall|i: int| 0 <= i < acc.len() ==> rgb_wf(#[trigger] f2[i]),
    ensures
        blend_frames(blend_frames(acc, f1), f2) == blend_frames(blend_frames(acc, f2), f1),
{
    let lhs = blend_frames(blend_frames(acc, f1), f2);
    let rhs = blend_frames(blend_frames(acc, f2), f1);
    assert forall|i: int| 0 <= i < acc.len() implies lhs[i] == rhs[i] by {
        lemma_chan_add_comm(acc[i].r as int, f1[i].r as int, f2[i].r as int);
        lemma_chan_add_comm(acc[i].g as int, f1[i].g as int, f2[i].g as int);
        lemma_chan_add_comm(acc[i].b as int, f1[i].b as int, f2[i].b as int);
    }
    assert(lhs =~= rhs);
}

impl Image {
    /// A black image of the given dimensions with no frames counted.
    pub fn new(w: usize, h: usize) -> (img: Image)
        requires
            w <= 0x8000,
            h <= 0x8000,
        ensures
            image_wf(img),
            img.w == w,
            img.h == h,
            img.iters == 0,
            forall|i: int|
                0 <= i < img.data.len() ==> #[trigger] img.data[i] == (RGB {
                    r: 0i64,
                    g: 0i64,
                    b: 0i64,
                }),
    {
        proof {
            lemma_area_small(w as int, h as int);
        }
        let n = w * h;
        let mut data: Vec<RGB> = Vec::new();
        let mut i: usize = 0;
        while i < n
            invariant
                i <= n,
                data.len() == i,
                forall|k: int|
                    0 <= k < i ==> #[trigger] data[k] == (RGB { r: 0i64, g: 0i64, b: 0i64 }),
            decreases n - i,
        {
            data.push(RGB { r: 0, g: 0, b: 0 });
            i += 1;
        }
        Image { data, iters: 0, w, h }
    }

    /// Writes one pixel of a frame.
    pub fn set(&mut self, x: usize, y: usize, c: RGB)
        requires
            image_wf(*old(self)),
            x < old(self).w,
            y < old(self).h,
            rgb_wf(c),
        ensures
            image_wf(*final(self)),
            final(self).data@ == old(self).data@.update(
                y * old(self).w + x,
                c,
            ),
            final(self).w == old(self).w,
            final(self).h == old(self).h,
            final(self).iters == old(self).iters,
    {
        proof {
            lemma_area_small(self.w as int, self.h as int);
            lemma_row_major_index(self.w as int, self.h as int, x as int, y as int);
        }
        let idx = y * self.w + x;
        self.data[idx] = c;
    }

    /// Reads one pixel.
    pub fn get(&self, x: usize, y: usize) -> (c: RGB)
        requires
            image_wf(*self),
            x < self.w,
            y < self.h,
        ensures
            c == self.data[y * self.w + x],
            rgb_wf(c),
    {
        proof {
            lemma_area_small(self.w as int, self.h as int);
            lemma_row_major_index(self.w as int, self.h as int, x as int, y as int);
        }
        let idx = y * self.w + x;
        self.data[idx]
    }

    /// The running average of one pixel over the blended frames: the
    /// accumulated sum divided by the frame count.
    pub fn average_at(&self, x: usize, y: usize) -> (c: RGB)
        requires
            image_wf(*self),
            x < self.w,
            y < self.h,
            self.iters >= 1,
        ensures
            ({
                let p = self.data[y * self.w + x];
                c == (RGB {
                    r: divt(p.r as int, self.iters as int) as i64,
                    g: divt(p.g as int, self.iters as int) as i64,
                    b: divt(p.b as int, self.iters as int) as i64,
                })
            }),
            rgb_wf(c),
    {
        let p = self.get(x, y);
        proof {
            crate::fixed::lemma_divt_abs_le(p.r as int, self.iters as int, RGB_CAP as int);
            crate::fixed::lemma_divt_abs_le(p.g as int, self.iters as int, RGB_CAP as int);
            crate::fixed::lemma_divt_abs_le(p.b as int, self.iters as int, RGB_CAP as int);
            vstd::arithmetic::div_mod::lemma_div_pos_is_pos(p.r as int, self.iters as int);
            vstd::arithmetic::div_mod::lemma_div_pos_is_pos(p.g as int, self.iters as int);
            vstd::arithmetic::div_mod::lemma_div_pos_is_pos(p.b as int, self.iters as int);
        }
        RGB {
            r: crate::fixed::divt_i64(p.r, self.iters as i64),
            g: crate::fixed::divt_i64(p.g, self.iters as i64),
            b: crate::fixed::divt_i64(p.b, self.iters as i64),
        }
    }

    /// Every pixel coordinate in iteration order: columns outermost.
    pub fn each_coordinate(&self) -> (r: Vec<(usize, usize)>)
        requires
            image_wf(*self),
        ensures
            r.len() == self.w * self.h,
            forall|k: int|
                0 <= k < r.len() ==> #[trigger] r[k] == (
                ((k / (self.h as int)) as usize),
                ((k % (self.h as int)) as usize),
                ),
    {
        let mut out: Vec<(usize, usize)> = Vec::new();
        let mut x: usize = 0;
        if self.h == 0 {
            proof {
                assert(self.w * self.h == (self.w as int) * 0);
                assert((self.w as int) * 0 == 0) by (nonlinear_arith);
            }
            return out;
        }
        while x < self.w
            invariant
                image_wf(*self),
                self.h >= 1,
                x <= self.w,
                out.len() == x * self.h,
                forall|k: int|
                    0 <= k < out.len() ==> #[trigger] out[k] == (
                    ((k / (self.h as int)) as usize),
                    ((k % (self.h as int)) as usize),
                    ),
            decreases self.w - x,
        {
            let mut y: usize = 0;
            while y < self.h
                invariant
                    image_wf(*self),
                    self.h >= 1,
                    x < self.w,
                    y <= self.h,
                    out.len() == x * self.h + y,
                    forall|k: int|
                        0 <= k < out.len() ==> #[trigger] out[k] == (
                        ((k / (self.h as int)) as usize),
                        ((k % (self.h as int)) as usize),
                        ),
                decreases self.h - y,
            {
                proof {
                    lemma_row_major_split(x as int, y as int, self.h as int);
                }
                out.push((x, y));
                y += 1;
            }
            proof {
                assert((x as int) * (self.h as int) + (self.h as int) == ((x as int) + 1) * (
                self.h as int)) by (nonlinear_arith);
            }
            x += 1;
        }
        proof {
            assert((self.w as int) * (self.h as int) == (self.h as int) * (self.w as int))
                by (nonlinear_arith);
        }
        out
    }

    /// Blends this frame into the accumulator `other`: every pixel gains
    /// this frame's radiance (saturating) and the frame count rises by one.
    /// The represented running average moves from `sum / n` to
    /// `(sum + frame) / (n + 1)`, the exact cumulative mean.
    pub fn blend_into(&self, other: &mut Image)
        requires
            image_wf(*self),
            image_wf(*old(other)),
            self.w == old(other).w,
            self.h == old(other).h,
            old(other).iters < 0x10000000,
        ensures
            image_wf(*final(other)),
            final(other).data@ == blend_frames(old(other).data@, self.data@),
            final(other).iters == old(other).iters + 1,
            final(other).w == old(other).w,
            final(other).h == old(other).h,
    {
        let n = other.data.len();
        let mut i: usize = 0;
        while i < n
            invariant
                image_wf(*self),
                self.w == other.w,
                self.h == other.h,
                other.data.len() == n,
                self.data.len() == n,
                other.w * other.h == n,
                other.w <= 0x10000,
                other.h <= 0x10000,
                i <= n,
                other.iters == old(other).iters,
                old(other).data.len() == n,
                forall|k: int|
                    0 <= k < n ==> rgb_wf(#[trigger] other.data[k]),
                forall|k: int|
                    0 <= k < i ==> #[trigger] other.data[k] == rgb_add(
                        old(other).data[k],
                        self.data[k],
                    ),
                forall|k: int| i <= k < n ==> #[trigger] other.data[k] == old(other).data[k],
            decreases n - i,
        {
            let blended = other.data[i].add_v(&self.data[i]);
            other.data[i] = blended;
            i += 1;
        }
        other.iters = other.iters + 1;
        proof {
            assert(other.data@ =~= blend_frames(old(other).data@, self.data@));
        }
    }
}

/// A row-major index stays within the buffer.
proof fn lemma_row_major_index(w: int, h: int, x: int, y: int)
    by (nonlinear_arith)
    requires
        0 <= x < w,
        0 <= y < h,
    ensures
        0 <= y * w + x < w * h,
{
}

/// The pixel count of bounded dimensions stays well within `usize`.
proof fn lemma_area_small(w: int, h: int)
    by (nonlinear_arith)
    requires
        0 <= w <= 0x8000,
        0 <= h <= 0x8000,
    ensures
        0 <= w * h <= 0x40000000,
{
}

/// Flattening columns-first: index `x * h + y` decodes back to `(x, y)`.
proof fn lemma_row_major_split(x: int, y: int, h: int)
    by (nonlinear_arith)
    requires
        0 <= y < h,
        0 <= x,
    ensures
        (x * h + y) / h == x,
        (x * h + y) % h == y,
{
}

} // verus!
