//! Pure geometry for the transform stage: the centered aspect-ratio crop,
//! the three resize modes, and the rotated dimensions. Everything here is
//! integer arithmetic on dimensions; the pixel work itself is done elsewhere.
use vstd::prelude::*;
use vstd::arithmetic::div_mod::{
    lemma_div_is_ordered, lemma_div_multiples_vanish, lemma_div_nonincreasing,
    lemma_fundamental_div_mod, lemma_mod_division_less_than_divisor,
};
use vstd::arithmetic::mul::lemma_mul_inequality;
use crate::options::{CropOptions, ResizeOptions};

verus! {

/// Numerator of the aspect ratio named by the string ("4:3" -> 4).
/// Unrecognized aspects fall back to 1:1.
pub open spec fn spec_aspect_num(aspect: Seq<char>) -> int {
    if aspect == "4:3"@ {
        4
    } else if aspect == "16:9"@ {
        16
    } else {
        1
    }
}

/// Denominator of the aspect ratio named by the string ("4:3" -> 3).
pub open spec fn spec_aspect_den(aspect: Seq<char>) -> int {
    if aspect == "4:3"@ {
        3
    } else if aspect == "16:9"@ {
        9
    } else {
        1
    }
}

/// The largest centered rectangle of ratio `num:den` that fits in a `w` by
/// `h` source: fit by width first; if the width-derived height exceeds the
/// source height, shrink to the source height instead. Returns
/// `(x, y, width, height)`.
pub open spec fn spec_aspect_crop(w: int, h: int, num: int, den: int) -> (int, int, int, int) {
    let th = w * den / num;
    if th > h {
        let cw = h * num / den;
        ((w - cw) / 2, 0, cw, h)
    } else {
        (0, (h - th) / 2, w, th)
    }
}

/// The product of two 32-bit quantities fits in 64 bits.
pub proof fn lemma_u32_mul_fits_u64(a: int, b: int)
    requires
        0 <= a <= u32::MAX,
        0 <= b <= u32::MAX,
    ensures
        a * b <= u64::MAX,
{
    lemma_mul_inequality(a, u32::MAX as int, b);
    lemma_mul_inequality(b, u32::MAX as int, u32::MAX as int);
}

/// When the width-derived height overflows the source, the height-derived
/// width fits back inside the source width.
proof fn lemma_shrunk_width_fits(w: int, h: int, num: int, den: int)
    requires
        1 <= num,
        1 <= den,
        0 <= w,
        0 <= h,
        w * den / num > h,
    ensures
        h * num / den <= w,
{
    broadcast use vstd::arithmetic::mul::group_mul_properties;

    let th = w * den / num;
    let cw = h * num / den;
    lemma_fundamental_div_mod(w * den, num);
    lemma_mod_division_less_than_divisor(w * den, num);
    assert(num * th <= w * den);
    lemma_mul_inequality(h + 1, th, num);
    assert(h * num + num <= w * den);
    lemma_fundamental_div_mod(h * num, den);
    lemma_mod_division_less_than_divisor(h * num, den);
    assert(den * cw <= h * num);
    if cw > w {
        lemma_mul_inequality(w + 1, cw, den);
        assert(w * den + den <= den * cw);
        assert(false);
    }
}

/// The width-derived height never exceeds the source width when the ratio
/// is at least as wide as tall (`den <= num`).
proof fn lemma_width_derived_height_bound(w: int, num: int, den: int)
    requires
        1 <= den <= num,
        0 <= w,
    ensures
        w * den / num <= w,
{
    lemma_mul_inequality(den, num, w);
    assert(w * den <= w * num);
    lemma_div_is_ordered(w * den, w * num, num);
    lemma_div_multiples_vanish(w, num);
    assert(num * w / num == w);
}

/// Computes the centered aspect crop. The result always lies within the
/// source: `x + width <= w` and `y + height <= h`.
pub fn compute_aspect_crop(w: u32, h: u32, num: u32, den: u32) -> (r: (u32, u32, u32, u32))
    requires
        1 <= den <= num <= 16,
    ensures
        ({
            let s = spec_aspect_crop(w as int, h as int, num as int, den as int);
            r.0 == s.0 && r.1 == s.1 && r.2 == s.2 && r.3 == s.3
        }),
        r.0 + r.2 <= w,
        r.1 + r.3 <= h,
{
    proof {
        lemma_u32_mul_fits_u64(w as int, den as int);
        lemma_u32_mul_fits_u64(h as int, num as int);
    }
    let th64 = (w as u64) * (den as u64) / (num as u64);
    if th64 > h as u64 {
        let cw64 = (h as u64) * (num as u64) / (den as u64);
        proof {
            lemma_shrunk_width_fits(w as int, h as int, num as int, den as int);
        }
        let cw = cw64 as u32;
        let x = (w - cw) / 2;
        proof {
            lemma_div_nonincreasing(w as int - cw as int, 2);
        }
        (x, 0, cw, h)
    } else {
        proof {
            lemma_width_derived_height_bound(w as int, num as int, den as int);
        }
        let th = th64 as u32;
        let y = (h - th) / 2;
        proof {
            lemma_div_nonincreasing(h as int - th as int, 2);
        }
        (0, y, w, th)
    }
}

/// The crop rectangle an option set asks for on a `w` by `h` source:
/// the explicit rectangle for `"free"`, the centered aspect crop otherwise.
pub open spec fn spec_crop_rect(c: CropOptions, w: int, h: int) -> (int, int, int, int) {
    if c.aspect@ == "free"@ {
        (c.x as int, c.y as int, c.width as int, c.height as int)
    } else {
        spec_aspect_crop(w, h, spec_aspect_num(c.aspect@), spec_aspect_den(c.aspect@))
    }
}

/// A rectangle is in bounds when it does not exceed the source in either axis.
pub open spec fn spec_rect_in_bounds(x: int, y: int, cw: int, ch: int, w: int, h: int) -> bool {
    x + cw <= w && y + ch <= h
}

/// Resolves the aspect string of a crop request to its integer ratio.
pub fn aspect_ratio(aspect: &String) -> (r: (u32, u32))
    ensures
        r.0 == spec_aspect_num(aspect@),
        r.1 == spec_aspect_den(aspect@),
        1 <= r.1 <= r.0 <= 16,
{
    if crate::options::str_is(aspect, "4:3") {
        (4, 3)
    } else if crate::options::str_is(aspect, "16:9") {
        (16, 9)
    } else {
        (1, 1)
    }
}

/// Computes the crop rectangle for a crop request. For aspect crops the
/// result is always in bounds; a `"free"` rectangle is taken verbatim and
/// may be out of bounds (the caller validates it).
pub fn compute_crop_rect(c: &CropOptions, w: u32, h: u32) -> (r: (u32, u32, u32, u32))
    ensures
        ({
            let s = spec_crop_rect(*c, w as int, h as int);
            r.0 == s.0 && r.1 == s.1 && r.2 == s.2 && r.3 == s.3
        }),
        c.aspect@ != "free"@ ==> spec_rect_in_bounds(
            r.0 as int,
            r.1 as int,
            r.2 as int,
            r.3 as int,
            w as int,
            h as int,
        ),
{
    if crate::options::str_is(&c.aspect, "free") {
        (c.x, c.y, c.width, c.height)
    } else {
        let (num, den) = aspect_ratio(&c.aspect);
        compute_aspect_crop(w, h, num, den)
    }
}

/// Scales `w` by `h` so that the longer side equals `l`, preserving the
/// aspect ratio (the shorter side rounds down).
pub open spec fn spec_longest_side_target(w: int, h: int, l: int) -> (int, int) {
    if w > h {
        (l, h * l / w)
    } else {
        (w * l / h, l)
    }
}

/// Scales `w` by `h` by the smaller of the two ratios `tw / w` and
/// `th / h`: the largest scaling that fits inside the `tw` by `th` box
/// while preserving aspect (one axis may under-fill).
pub open spec fn spec_fit_within(w: int, h: int, tw: int, th: int) -> (int, int) {
    if tw * h <= th * w {
        (tw, h * tw / w)
    } else {
        (w * th / h, th)
    }
}

/// Scaling one side to match a bound keeps the other side within its
/// proportional bound: `a * b / c <= b` whenever `a <= c`.
proof fn lemma_scale_within(a: int, b: int, c: int)
    requires
        0 <= a <= c,
        0 <= b,
        1 <= c,
    ensures
        a * b / c <= b,
{
    lemma_mul_inequality(a, c, b);
    assert(a * b <= c * b);
    lemma_div_is_ordered(a * b, c * b, c);
    lemma_div_multiples_vanish(b, c);
    assert(c * b / c == b);
}

/// The cross-multiplied ratio comparison keeps the scaled side within the
/// requested box: if `x * h <= y * w` then `h * x / w <= y`.
proof fn lemma_cross_scale_bound(w: int, h: int, x: int, y: int)
    requires
        1 <= w,
        0 <= h,
        0 <= x,
        0 <= y,
        x * h <= y * w,
    ensures
        h * x / w <= y,
{
    assert(h * x <= w * y);
    lemma_div_is_ordered(h * x, w * y, w);
    lemma_div_multiples_vanish(y, w);
    assert(w * y / w == y);
}

/// The target size for a resize request in mode `"longest-side"` or
/// `"fixed"`; every other mode (including requests with no usable numbers)
/// leaves the dimensions alone.
pub open spec fn spec_resize_target(r: ResizeOptions, w: int, h: int) -> (int, int) {
    if r.mode@ == "longest-side"@ {
        match r.longest_side {
            Some(l) => spec_longest_side_target(w, h, l as int),
            None => (w, h),
        }
    } else if r.mode@ == "fixed"@ {
        let tw = match r.width {
            Some(x) => x as int,
            None => w,
        };
        let th = match r.height {
            Some(x) => x as int,
            None => h,
        };
        if r.keep_aspect {
            spec_fit_within(w, h, tw, th)
        } else {
            (tw, th)
        }
    } else {
        (w, h)
    }
}

/// Computes the resize target for a request on a `w` by `h` source.
pub fn compute_resize_target(r: &ResizeOptions, w: u32, h: u32) -> (t: (u32, u32))
    requires
        1 <= w,
        1 <= h,
    ensures
        ({
            let s = spec_resize_target(*r, w as int, h as int);
            t.0 == s.0 && t.1 == s.1
        }),
{
    if crate::options::str_is(&r.mode, "longest-side") {
        match r.longest_side {
            Some(l) => {
                proof {
                    lemma_u32_mul_fits_u64(h as int, l as int);
                    lemma_u32_mul_fits_u64(w as int, l as int);
                }
                if w > h {
                    let nh64 = (h as u64) * (l as u64) / (w as u64);
                    proof {
                        lemma_scale_within(h as int, l as int, w as int);
                    }
                    (l, nh64 as u32)
                } else {
                    let nw64 = (w as u64) * (l as u64) / (h as u64);
                    proof {
                        lemma_scale_within(w as int, l as int, h as int);
                    }
                    (nw64 as u32, l)
                }
            },
            None => (w, h),
        }
    } else if crate::options::str_is(&r.mode, "fixed") {
        let tw = match r.width {
            Some(x) => x,
            None => w,
        };
        let th = match r.height {
            Some(x) => x,
            None => h,
        };
        if r.keep_aspect {
            compute_fit_box(w, h, tw, th)
        } else {
            (tw, th)
        }
    } else {
        (w, h)
    }
}

/// Computes the largest scaling of `w` by `h` that fits inside the `bw`
/// by `bh` box while preserving aspect ratio.
pub fn compute_fit_box(w: u32, h: u32, bw: u32, bh: u32) -> (t: (u32, u32))
    requires
        1 <= w,
        1 <= h,
    ensures
        ({
            let s = spec_fit_within(w as int, h as int, bw as int, bh as int);
            t.0 == s.0 && t.1 == s.1
        }),
{
    proof {
        lemma_u32_mul_fits_u64(bw as int, h as int);
        lemma_u32_mul_fits_u64(bh as int, w as int);
        lemma_u32_mul_fits_u64(h as int, bw as int);
        lemma_u32_mul_fits_u64(w as int, bh as int);
    }
    if (bw as u64) * (h as u64) <= (bh as u64) * (w as u64) {
        let nh64 = (h as u64) * (bw as u64) / (w as u64);
        proof {
            lemma_cross_scale_bound(w as int, h as int, bw as int, bh as int);
        }
        (bw, nh64 as u32)
    } else {
        let nw64 = (w as u64) * (bh as u64) / (h as u64);
        proof {
            lemma_cross_scale_bound(h as int, w as int, bh as int, bw as int);
        }
        (nw64 as u32, bh)
    }
}

/// The upscale target: both sides multiplied by `mult`, or `None` when the
/// result would not fit in 32 bits.
pub fn compute_upscale(w: u32, h: u32, mult: u32) -> (r: Option<(u32, u32)>)
    requires
        1 <= mult,
    ensures
        (w as int * mult as int <= u32::MAX && h as int * mult as int <= u32::MAX) <==> r is Some,
        r is Some ==> ({
            let p = r->0;
            p.0 == w as int * mult as int && p.1 == h as int * mult as int
        }),
{
    proof {
        lemma_u32_mul_fits_u64(w as int, mult as int);
        lemma_u32_mul_fits_u64(h as int, mult as int);
    }
    let w64 = (w as u64) * (mult as u64);
    let h64 = (h as u64) * (mult as u64);
    if w64 <= u32::MAX as u64 && h64 <= u32::MAX as u64 {
        Some((w64 as u32, h64 as u32))
    } else {
        None
    }
}

/// The dimensions after an axis-aligned rotation: 90 and 270 swap the
/// sides, everything else leaves them alone.
pub open spec fn spec_rotated_dims(degrees: int, w: int, h: int) -> (int, int) {
    if degrees == 90 || degrees == 270 {
        (h, w)
    } else {
        (w, h)
    }
}

} // verus!
