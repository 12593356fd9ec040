//! Colour values and the blending of a translucent colour over a pixel.

use vstd::prelude::*;

verus! {

/// One pixel: red, green, blue and alpha, eight bits each, alpha not
/// premultiplied.
#[derive(Clone, Copy, Debug, PartialEq, Eq, Structural)]
pub struct Rgba {
    pub r: u8,
    pub g: u8,
    pub b: u8,
    pub a: u8,
}

impl Rgba {
    /// The channels in the order in which a frame stores them: red, green,
    /// blue, alpha.
    pub open spec fn channel(self, c: int) -> u8 {
        if c == 0 {
            self.r
        } else if c == 1 {
            self.g
        } else if c == 2 {
            self.b
        } else {
            self.a
        }
    }
}

/// The weight of the source colour in a blend, in units of 1/65025.
pub open spec fn source_weight(src_alpha: u8) -> int {
    255 * src_alpha
}

/// The weight of the destination colour in a blend, in units of 1/65025:
/// what the source lets through of what the destination covers.
pub open spec fn destination_weight(dst_alpha: u8, src_alpha: u8) -> int {
    dst_alpha * (255 - src_alpha)
}

/// One colour channel of `src` over `dst`: the mean of the two channels by
/// their weights, rounded to the nearest value. Where both are fully
/// transparent the destination's channel stays.
pub open spec fn blend_channel(dst: u8, src: u8, dst_alpha: u8, src_alpha: u8) -> int {
    let total = source_weight(src_alpha) + destination_weight(dst_alpha, src_alpha);
    if total == 0 {
        dst as int
    } else {
        (src * source_weight(src_alpha) + dst * destination_weight(dst_alpha, src_alpha) + total
            / 2) / total
    }
}

/// The alpha of `src` over `dst`, rounded to the nearest value.
pub open spec fn blend_alpha(dst_alpha: u8, src_alpha: u8) -> int {
    (source_weight(src_alpha) + destination_weight(dst_alpha, src_alpha) + 127) / 255
}

/// `src` composited over `dst`, both with straight alpha.
pub open spec fn blend_over(dst: Rgba, src: Rgba) -> Rgba {
    Rgba {
        r: blend_channel(dst.r, src.r, dst.a, src.a) as u8,
        g: blend_channel(dst.g, src.g, dst.a, src.a) as u8,
        b: blend_channel(dst.b, src.b, dst.a, src.a) as u8,
        a: blend_alpha(dst.a, src.a) as u8,
    }
}

/// A blended channel and a blended alpha are channel values again.
pub proof fn lemma_blend_in_range(dst: u8, src: u8, dst_alpha: u8, src_alpha: u8)
    ensures
        0 <= blend_channel(dst, src, dst_alpha, src_alpha) <= 255,
        0 <= blend_alpha(dst_alpha, src_alpha) <= 255,
        0 <= source_weight(src_alpha) <= 65025,
        0 <= destination_weight(dst_alpha, src_alpha) <= 65025,
        source_weight(src_alpha) + destination_weight(dst_alpha, src_alpha) <= 65025,
{
    let ws = source_weight(src_alpha);
    let wd = destination_weight(dst_alpha, src_alpha);
    let total = ws + wd;
    assert(0 <= wd <= 255 * (255 - src_alpha)) by (nonlinear_arith)
        requires
            wd == dst_alpha * (255 - src_alpha),
            0 <= dst_alpha <= 255,
            0 <= src_alpha <= 255,
    ;
    if total != 0 {
        let n = src * ws + dst * wd + total / 2;
        assert(0 <= src * ws <= 255 * ws) by (nonlinear_arith)
            requires
                0 <= src <= 255,
                0 <= ws,
        ;
        assert(0 <= dst * wd <= 255 * wd) by (nonlinear_arith)
            requires
                0 <= dst <= 255,
                0 <= wd,
        ;
        assert(0 <= n / total <= 255) by (nonlinear_arith)
            requires
                0 <= n < 256 * total,
                total > 0,
        ;
    }
}

/// Composites `src` over `dst`.
pub fn blend(dst: Rgba, src: Rgba) -> (out: Rgba)
    ensures
        out == blend_over(dst, src),
{
    let sa: u32 = src.a as u32;
    let da: u32 = dst.a as u32;
    let ws: u32 = 255 * sa;
    let keep: u32 = 255 - sa;
    proof {
        lemma_blend_in_range(dst.r, src.r, dst.a, src.a);
        lemma_blend_in_range(dst.g, src.g, dst.a, src.a);
        lemma_blend_in_range(dst.b, src.b, dst.a, src.a);
    }
    let wd: u32 = da * keep;
    let total: u32 = ws + wd;
    let a: u32 = (total + 127) / 255;
    if total == 0 {
        Rgba { r: dst.r, g: dst.g, b: dst.b, a: a as u8 }
    } else {
        let half: u32 = total / 2;
        proof {
            assert((src.r as u32) * ws <= 255 * ws) by (nonlinear_arith)
                requires
                    src.r <= 255,
            ;
            assert((src.g as u32) * ws <= 255 * ws) by (nonlinear_arith)
                requires
                    src.g <= 255,
            ;
            assert((src.b as u32) * ws <= 255 * ws) by (nonlinear_arith)
                requires
                    src.b <= 255,
            ;
            assert((dst.r as u32) * wd <= 255 * wd) by (nonlinear_arith)
                requires
                    dst.r <= 255,
            ;
            assert((dst.g as u32) * wd <= 255 * wd) by (nonlinear_arith)
                requires
                    dst.g <= 255,
            ;
            assert((dst.b as u32) * wd <= 255 * wd) by (nonlinear_arith)
                requires
                    dst.b <= 255,
            ;
        }
        let r: u32 = ((src.r as u32) * ws + (dst.r as u32) * wd + half) / total;
        let g: u32 = ((src.g as u32) * ws + (dst.g as u32) * wd + half) / total;
        let b: u32 = ((src.b as u32) * ws + (dst.b as u32) * wd + half) / total;
        Rgba { r: r as u8, g: g as u8, b: b as u8, a: a as u8 }
    }
}

/// A fully transparent colour changes nothing.
pub proof fn lemma_blend_transparent_source(dst: Rgba, src: Rgba)
    requires
        src.a == 0,
    ensures
        blend_over(dst, src) == dst,
{
    let wd = destination_weight(dst.a, src.a);
    if wd != 0 {
        lemma_weighted_identity(dst.r as int, wd);
        lemma_weighted_identity(dst.g as int, wd);
        lemma_weighted_identity(dst.b as int, wd);
    }
}

/// A fully opaque colour replaces the pixel.
pub proof fn lemma_blend_opaque_source(dst: Rgba, src: Rgba)
    requires
        src.a == 255,
    ensures
        blend_over(dst, src) == src,
{
    assert(destination_weight(dst.a, src.a) == 0) by (nonlinear_arith)
        requires
            src.a == 255,
            destination_weight(dst.a, src.a) == dst.a * (255 - src.a),
    ;
    lemma_weighted_identity(src.r as int, 65025);
    lemma_weighted_identity(src.g as int, 65025);
    lemma_weighted_identity(src.b as int, 65025);
}

/// Over an opaque pixel the result is opaque, and each channel is the mean of
/// the two channels weighted by the source's alpha, rounded to the nearest
/// value: `(src * alpha + dst * (255 - alpha) + 127) / 255`.
pub proof fn lemma_blend_over_opaque(dst: u8, src: u8, src_alpha: u8)
    ensures
        blend_alpha(255, src_alpha) == 255,
        blend_channel(dst, src, 255, src_alpha) == (src * src_alpha + dst * (255 - src_alpha)
            + 127) / 255,
{
    let n: int = src * src_alpha + dst * (255 - src_alpha);
    assert(0 <= src * src_alpha) by (nonlinear_arith)
        requires
            0 <= src,
            0 <= src_alpha,
    ;
    assert(0 <= dst * (255 - src_alpha)) by (nonlinear_arith)
        requires
            0 <= dst,
            0 <= src_alpha <= 255,
    ;
    assert(src * (255 * src_alpha) + dst * (255 * (255 - src_alpha)) == 255 * n)
        by (nonlinear_arith)
        requires
            n == src * src_alpha + dst * (255 - src_alpha),
    ;
    let q = (n + 127) / 255;
    let r = (n + 127) % 255;
    assert((255 * n + 32512) / 65025 == q) by (nonlinear_arith)
        requires
            255 * n + 32512 == 65025 * q + (255 * r + 127),
            0 <= 255 * r + 127 < 65025,
    ;
}

/// A value weighted by all of a positive weight, rounded, is the value.
proof fn lemma_weighted_identity(v: int, weight: int)
    requires
        weight > 0,
    ensures
        (v * weight + weight / 2) / weight == v,
{
    assert((v * weight + weight / 2) / weight == v) by (nonlinear_arith)
        requires
            weight > 0,
            0 <= weight / 2 < weight,
    ;
}

} // verus!
