//! The decoded picture and the transform stage. The pixel store is the
//! codec library's `DynamicImage`, held opaque; its dimensions, its RGBA
//! view and its alpha flag are named here, and every operation on it goes
//! through a trusted wrapper whose contract speaks over those names. The
//! transform decisions themselves (which rectangle, which target size,
//! whether to flatten) are verified code around the wrappers.
use vstd::prelude::*;
use crate::color::{composite_over_background, parse_color, spec_blend, spec_composited_at,
    spec_parse_color};
use crate::geometry::{compute_crop_rect, compute_resize_target, spec_crop_rect,
    spec_rect_in_bounds, spec_resize_target, spec_rotated_dims};
use crate::options::{spec_format_is_jpeg, CropOptions, OutputOptions, ResizeOptions};

verus! {

#[verifier::external_type_specification]
#[verifier::external_body]
pub struct ExDynamicImage(image::DynamicImage);

/// The width the codec library reports for a picture.
pub uninterp spec fn spec_width(img: image::DynamicImage) -> u32;

/// The height the codec library reports for a picture.
pub uninterp spec fn spec_height(img: image::DynamicImage) -> u32;

/// The picture's pixels as the codec library's 8-bit RGBA expansion,
/// row-major, four bytes per pixel.
pub uninterp spec fn spec_rgba(img: image::DynamicImage) -> Seq<u8>;

/// Whether the picture's color type carries an alpha channel.
pub uninterp spec fn spec_has_alpha(img: image::DynamicImage) -> bool;

/// Whether a byte buffer decodes as an image: decoding is deterministic,
/// so success is a function of the bytes alone.
pub uninterp spec fn spec_decode_ok(bytes: Seq<u8>) -> bool;

/// The width of the picture a byte buffer decodes to; a function of the
/// bytes alone.
pub uninterp spec fn spec_decoded_width(bytes: Seq<u8>) -> u32;

/// The height of the picture a byte buffer decodes to; a function of the
/// bytes alone.
pub uninterp spec fn spec_decoded_height(bytes: Seq<u8>) -> u32;

/// Relies on image::load_from_memory: decodes a byte buffer, guessing the
/// format from its content; succeeds exactly when the bytes decode, to a
/// picture of the decoded dimensions whose RGBA expansion holds four
/// bytes per pixel.
#[verifier::external_body]
pub(crate) fn decode_image(bytes: &Vec<u8>) -> (r: Result<image::DynamicImage, String>)
    ensures
        r is Ok <==> spec_decode_ok(bytes@),
        r is Ok ==> spec_width(r->Ok_0) == spec_decoded_width(bytes@) && spec_height(r->Ok_0)
            == spec_decoded_height(bytes@),
        r is Ok ==> spec_rgba(r->Ok_0).len() == 4 * spec_width(r->Ok_0) * spec_height(r->Ok_0),
{
    match image::load_from_memory(bytes.as_slice()) {
        Ok(img) => Ok(img),
        Err(e) => Err(e.to_string()),
    }
}

/// Relies on DynamicImage::width.
#[verifier::external_body]
pub(crate) fn img_width(img: &image::DynamicImage) -> (r: u32)
    ensures
        r == spec_width(*img),
{
    img.width()
}

/// Relies on DynamicImage::height.
#[verifier::external_body]
pub(crate) fn img_height(img: &image::DynamicImage) -> (r: u32)
    ensures
        r == spec_height(*img),
{
    img.height()
}

/// Relies on DynamicImage::color and ColorType::has_alpha: whether the
/// stored color type carries an alpha channel.
#[verifier::external_body]
pub(crate) fn img_has_alpha(img: &image::DynamicImage) -> (r: bool)
    ensures
        r == spec_has_alpha(*img),
{
    img.color().has_alpha()
}

/// Channel `c` of the pixel at column `x`, row `y` of a `w`-wide RGBA
/// buffer.
pub open spec fn spec_pixel(s: Seq<u8>, w: int, x: int, y: int, c: int) -> u8 {
    s[4 * (y * w + x) + c]
}

/// Every pixel of the cut-out is the source pixel offset by the
/// rectangle's corner.
pub open spec fn spec_cropped_pixels(
    src: Seq<u8>,
    dst: Seq<u8>,
    w: int,
    x: int,
    y: int,
    cw: int,
    ch: int,
) -> bool {
    forall|i: int, j: int, c: int|
        0 <= i < cw && 0 <= j < ch && 0 <= c < 4 ==> #[trigger] spec_pixel(dst, cw, i, j, c)
            == spec_pixel(src, w, x + i, y + j, c)
}

/// The pixel map of a 90-degree clockwise rotation of a `w` by `h`
/// source: destination column `i`, row `j` holds source column `j`,
/// row `h - 1 - i`.
pub open spec fn spec_rotated90_pixels(src: Seq<u8>, dst: Seq<u8>, w: int, h: int) -> bool {
    forall|i: int, j: int, c: int|
        0 <= i < h && 0 <= j < w && 0 <= c < 4 ==> #[trigger] spec_pixel(dst, h, i, j, c)
            == spec_pixel(src, w, j, h - 1 - i, c)
}

/// The pixel map of a 180-degree rotation: both axes reversed.
pub open spec fn spec_rotated180_pixels(src: Seq<u8>, dst: Seq<u8>, w: int, h: int) -> bool {
    forall|i: int, j: int, c: int|
        0 <= i < w && 0 <= j < h && 0 <= c < 4 ==> #[trigger] spec_pixel(dst, w, i, j, c)
            == spec_pixel(src, w, w - 1 - i, h - 1 - j, c)
}

/// The pixel map of a 270-degree clockwise rotation of a `w` by `h`
/// source: destination column `i`, row `j` holds source column
/// `w - 1 - j`, row `i`.
pub open spec fn spec_rotated270_pixels(src: Seq<u8>, dst: Seq<u8>, w: int, h: int) -> bool {
    forall|i: int, j: int, c: int|
        0 <= i < h && 0 <= j < w && 0 <= c < 4 ==> #[trigger] spec_pixel(dst, h, i, j, c)
            == spec_pixel(src, w, w - 1 - j, i, c)
}

/// Relies on DynamicImage::crop_imm: the cut-out delimited by the given
/// rectangle, which the caller keeps inside the source.
#[verifier::external_body]
fn crop_image(img: &image::DynamicImage, x: u32, y: u32, w: u32, h: u32) -> (r:
    image::DynamicImage)
    requires
        x + w <= spec_width(*img),
        y + h <= spec_height(*img),
    ensures
        spec_width(r) == w,
        spec_height(r) == h,
        spec_rgba(r).len() == 4 * w * h,
        spec_has_alpha(r) == spec_has_alpha(*img),
        spec_cropped_pixels(
            spec_rgba(*img),
            spec_rgba(r),
            spec_width(*img) as int,
            x as int,
            y as int,
            w as int,
            h as int,
        ),
{
    img.crop_imm(x, y, w, h)
}

/// Relies on DynamicImage::rotate90: 90 degrees clockwise, swapping the sides.
#[verifier::external_body]
fn rotate_image_90(img: &image::DynamicImage) -> (r: image::DynamicImage)
    ensures
        spec_width(r) == spec_height(*img),
        spec_height(r) == spec_width(*img),
        spec_rgba(r).len() == 4 * spec_width(r) * spec_height(r),
        spec_has_alpha(r) == spec_has_alpha(*img),
        spec_rotated90_pixels(
            spec_rgba(*img),
            spec_rgba(r),
            spec_width(*img) as int,
            spec_height(*img) as int,
        ),
{
    img.rotate90()
}

/// Relies on DynamicImage::rotate180: both sides kept.
#[verifier::external_body]
fn rotate_image_180(img: &image::DynamicImage) -> (r: image::DynamicImage)
    ensures
        spec_width(r) == spec_width(*img),
        spec_height(r) == spec_height(*img),
        spec_rgba(r).len() == 4 * spec_width(r) * spec_height(r),
        spec_has_alpha(r) == spec_has_alpha(*img),
        spec_rotated180_pixels(
            spec_rgba(*img),
            spec_rgba(r),
            spec_width(*img) as int,
            spec_height(*img) as int,
        ),
{
    img.rotate180()
}

/// Relies on DynamicImage::rotate270: 270 degrees clockwise, swapping the sides.
#[verifier::external_body]
fn rotate_image_270(img: &image::DynamicImage) -> (r: image::DynamicImage)
    ensures
        spec_width(r) == spec_height(*img),
        spec_height(r) == spec_width(*img),
        spec_rgba(r).len() == 4 * spec_width(r) * spec_height(r),
        spec_has_alpha(r) == spec_has_alpha(*img),
        spec_rotated270_pixels(
            spec_rgba(*img),
            spec_rgba(r),
            spec_width(*img) as int,
            spec_height(*img) as int,
        ),
{
    img.rotate270()
}

/// Relies on DynamicImage::resize_exact with the Lanczos filter: resamples
/// to exactly the requested dimensions, not preserving aspect ratio.
#[verifier::external_body]
fn resize_image_exact(img: &image::DynamicImage, w: u32, h: u32) -> (r: image::DynamicImage)
    requires
        1 <= w,
        1 <= h,
    ensures
        spec_width(r) == w,
        spec_height(r) == h,
        spec_rgba(r).len() == 4 * w * h,
        spec_has_alpha(r) == spec_has_alpha(*img),
{
    img.resize_exact(w, h, image::imageops::FilterType::Lanczos3)
}

/// Relies on DynamicImage::to_rgba8 and ImageBuffer::into_raw: the 8-bit
/// RGBA expansion of the picture, four bytes per pixel, row-major.
#[verifier::external_body]
fn rgba_bytes(img: &image::DynamicImage) -> (r: Vec<u8>)
    ensures
        r@ == spec_rgba(*img),
        r@.len() == 4 * spec_width(*img) * spec_height(*img),
{
    img.to_rgba8().into_raw()
}

/// Byte `3k + c` of an RGB buffer reappears at byte `4k + c` of its RGBA
/// expansion, with 255 filled in for every alpha byte.
pub open spec fn spec_rgb_expanded(rgb: Seq<u8>, rgba: Seq<u8>) -> bool {
    rgba.len() == rgb.len() / 3 * 4 && forall|k: int|
        0 <= k < rgb.len() / 3 ==> (#[trigger] rgba[4 * k] == rgb[3 * k] && rgba[4 * k + 1]
            == rgb[3 * k + 1] && rgba[4 * k + 2] == rgb[3 * k + 2] && rgba[4 * k + 3] == 255)
}

/// Relies on ImageBuffer::from_raw (which accepts a buffer of exactly
/// width * height * 3 bytes) wrapped as an 8-bit RGB picture; such a
/// picture has no alpha channel and expands to RGBA with alpha 255.
#[verifier::external_body]
fn rgb_image_from_raw(w: u32, h: u32, bytes: Vec<u8>) -> (r: image::DynamicImage)
    requires
        bytes@.len() == 3 * w * h,
    ensures
        spec_width(r) == w,
        spec_height(r) == h,
        !spec_has_alpha(r),
        spec_rgb_expanded(bytes@, spec_rgba(r)),
{
    image::DynamicImage::ImageRgb8(image::RgbImage::from_raw(w, h, bytes).unwrap())
}

/// Applies the crop stage: resolves the requested rectangle and cuts it
/// out; an explicit rectangle that exceeds the source in either axis is
/// rejected and produces no picture.
pub fn apply_crop(img: image::DynamicImage, crop: &CropOptions) -> (r: Result<
    image::DynamicImage,
    String,
>)
    ensures
        ({
            let rect = spec_crop_rect(*crop, spec_width(img) as int, spec_height(img) as int);
            let ok = spec_rect_in_bounds(
                rect.0,
                rect.1,
                rect.2,
                rect.3,
                spec_width(img) as int,
                spec_height(img) as int,
            );
            (r is Ok <==> ok) && (r is Ok ==> spec_width(r->Ok_0) == rect.2 && spec_height(
                r->Ok_0,
            ) == rect.3 && spec_has_alpha(r->Ok_0) == spec_has_alpha(img)) && (r is Err
                ==> r->Err_0@ == "Crop dimensions out of bounds"@)
        }),
{
    let w = img_width(&img);
    let h = img_height(&img);
    let (x, y, cw, ch) = compute_crop_rect(crop, w, h);
    if (x as u64) + (cw as u64) <= (w as u64) && (y as u64) + (ch as u64) <= (h as u64) {
        Ok(crop_image(&img, x, y, cw, ch))
    } else {
        Err("Crop dimensions out of bounds".to_owned())
    }
}

/// Applies the rotate stage: 90, 180 and 270 rotate the picture, any other
/// angle (including 0) hands it back untouched.
pub fn apply_rotate(img: image::DynamicImage, degrees: i32) -> (r: image::DynamicImage)
    ensures
        ({
            let d = spec_rotated_dims(
                degrees as int,
                spec_width(img) as int,
                spec_height(img) as int,
            );
            spec_width(r) == d.0 && spec_height(r) == d.1
        }),
        spec_has_alpha(r) == spec_has_alpha(img),
        !(degrees == 90 || degrees == 180 || degrees == 270) ==> r == img,
        degrees == 90 ==> spec_rotated90_pixels(
            spec_rgba(img),
            spec_rgba(r),
            spec_width(img) as int,
            spec_height(img) as int,
        ),
        degrees == 180 ==> spec_rotated180_pixels(
            spec_rgba(img),
            spec_rgba(r),
            spec_width(img) as int,
            spec_height(img) as int,
        ),
        degrees == 270 ==> spec_rotated270_pixels(
            spec_rgba(img),
            spec_rgba(r),
            spec_width(img) as int,
            spec_height(img) as int,
        ),
{
    if degrees == 90 {
        rotate_image_90(&img)
    } else if degrees == 180 {
        rotate_image_180(&img)
    } else if degrees == 270 {
        rotate_image_270(&img)
    } else {
        img
    }
}

/// Applies the resize stage for the `"fixed"` and `"longest-side"` modes.
/// A target equal to the current size performs no resampling and hands the
/// picture back untouched; a degenerate target with an empty axis is
/// rejected.
pub fn apply_resize(img: image::DynamicImage, resize: &ResizeOptions) -> (r: Result<
    image::DynamicImage,
    String,
>)
    requires
        1 <= spec_width(img),
        1 <= spec_height(img),
    ensures
        ({
            let t = spec_resize_target(
                *resize,
                spec_width(img) as int,
                spec_height(img) as int,
            );
            (r is Ok <==> (t.0 >= 1 && t.1 >= 1)) && (r is Err ==> r->Err_0@
                == "Resize target is empty"@) && ((t.0 == spec_width(img) && t.1 == spec_height(
                img,
            )) ==> (r is Ok && r->Ok_0 == img)) && (r is Ok ==> spec_width(r->Ok_0) == t.0
                && spec_height(r->Ok_0) == t.1 && spec_has_alpha(r->Ok_0) == spec_has_alpha(img))
        }),
{
    let w = img_width(&img);
    let h = img_height(&img);
    let (tw, th) = compute_resize_target(resize, w, h);
    if tw == w && th == h {
        Ok(img)
    } else if tw >= 1 && th >= 1 {
        Ok(resize_image_exact(&img, tw, th))
    } else {
        Err("Resize target is empty".to_owned())
    }
}

/// Scales the picture to exactly `tw` by `th`: a target equal to the
/// current size performs no resampling and hands the picture back
/// untouched, and an empty target is rejected. The upscale mode resolves
/// to this with the stage-entry dimensions multiplied.
pub fn apply_scale(img: image::DynamicImage, tw: u32, th: u32) -> (r: Result<
    image::DynamicImage,
    String,
>)
    requires
        1 <= spec_width(img),
        1 <= spec_height(img),
    ensures
        r is Ok <==> (tw >= 1 && th >= 1),
        r is Err ==> r->Err_0@ == "Resize target is empty"@,
        (tw == spec_width(img) && th == spec_height(img)) ==> (r is Ok && r->Ok_0 == img),
        r is Ok ==> (spec_width(r->Ok_0) == tw && spec_height(r->Ok_0) == th && spec_has_alpha(
            r->Ok_0,
        ) == spec_has_alpha(img)),
{
    let w = img_width(&img);
    let h = img_height(&img);
    if tw == w && th == h {
        Ok(img)
    } else if tw >= 1 && th >= 1 {
        Ok(resize_image_exact(&img, tw, th))
    } else {
        Err("Resize target is empty".to_owned())
    }
}

/// Every pixel of `dst` is the matching pixel of `src` composited over the
/// background, and `dst` is opaque.
pub open spec fn spec_flattened(src: Seq<u8>, dst: Seq<u8>, bg: (u8, u8, u8)) -> bool {
    dst.len() == src.len() && forall|k: int|
        0 <= k < src.len() / 4 ==> (#[trigger] dst[4 * k] == spec_blend(
            src[4 * k] as int,
            bg.0 as int,
            src[4 * k + 3] as int,
        ) && dst[4 * k + 1] == spec_blend(
            src[4 * k + 1] as int,
            bg.1 as int,
            src[4 * k + 3] as int,
        ) && dst[4 * k + 2] == spec_blend(
            src[4 * k + 2] as int,
            bg.2 as int,
            src[4 * k + 3] as int,
        ) && dst[4 * k + 3] == 255)
}

/// The background color an output option set asks for: the parsed
/// `#RRGGBB` string, or white when none is given.
pub open spec fn spec_background(output: OutputOptions) -> (int, int, int) {
    match output.background {
        Some(s) => spec_parse_color(s@),
        None => (255, 255, 255),
    }
}

/// Applies the format-driven recolor stage: when the output format is in
/// the JPEG family (`"jpeg"` or `"jpg"`, whose codec cannot carry
/// transparency) and the picture has an alpha channel, composites it over
/// the configured background into an opaque picture of the same size;
/// otherwise hands the picture back untouched.
pub fn apply_format_conversion(img: image::DynamicImage, output: &OutputOptions) -> (r:
    image::DynamicImage)
    ensures
        !(spec_format_is_jpeg(output.format@) && spec_has_alpha(img)) ==> r == img,
        (spec_format_is_jpeg(output.format@) && spec_has_alpha(img)) ==> ({
            let bg = spec_background(*output);
            spec_width(r) == spec_width(img) && spec_height(r) == spec_height(img)
                && !spec_has_alpha(r) && spec_flattened(
                spec_rgba(img),
                spec_rgba(r),
                (bg.0 as u8, bg.1 as u8, bg.2 as u8),
            )
        }),
{
    let is_jpeg = crate::options::str_is(&output.format, "jpeg") || crate::options::str_is(
        &output.format,
        "jpg",
    );
    if is_jpeg && img_has_alpha(&img) {
        let bg: (u8, u8, u8) = match &output.background {
            Some(s) => parse_color(s.as_str()),
            None => (255, 255, 255),
        };
        let w = img_width(&img);
        let h = img_height(&img);
        let src = rgba_bytes(&img);
        proof {
            lemma_pixel_buffer_arith(spec_width(img) as int, spec_height(img) as int);
        }
        let rgb = composite_over_background(&src, bg);
        let out = rgb_image_from_raw(w, h, rgb);
        proof {
            lemma_flatten_glue(spec_rgba(img), rgb@, spec_rgba(out), bg);
        }
        out
    } else {
        img
    }
}

/// The byte counts of a picture's RGBA buffer, its RGB reduction, and
/// their quotients, tied together.
proof fn lemma_pixel_buffer_arith(w: int, h: int)
    requires
        0 <= w,
        0 <= h,
    ensures
        4 * w * h == 4 * (w * h),
        3 * w * h == 3 * (w * h),
        (4 * (w * h)) % 4 == 0,
        (4 * (w * h)) / 4 == w * h,
        (3 * (w * h)) / 3 == w * h,
{
    vstd::arithmetic::mul::lemma_mul_is_associative(4, w, h);
    vstd::arithmetic::mul::lemma_mul_is_associative(3, w, h);
    vstd::arithmetic::mul::lemma_mul_nonnegative(w, h);
    vstd::arithmetic::div_mod::lemma_mod_multiples_basic(w * h, 4);
    vstd::arithmetic::div_mod::lemma_div_multiples_vanish(w * h, 4);
    vstd::arithmetic::div_mod::lemma_div_multiples_vanish(w * h, 3);
}

/// Two RGBA buffers of the same grid that agree on every pixel are the
/// same buffer.
proof fn lemma_pixelwise_bytes_equal(a: Seq<u8>, b: Seq<u8>, w: int, h: int)
    requires
        1 <= w,
        1 <= h,
        a.len() == 4 * (w * h),
        b.len() == 4 * (w * h),
        forall|i: int, j: int, c: int|
            0 <= i < w && 0 <= j < h && 0 <= c < 4 ==> #[trigger] spec_pixel(a, w, i, j, c)
                == spec_pixel(b, w, i, j, c),
    ensures
        a == b,
{
    assert forall|n: int| 0 <= n < a.len() implies a[n] == b[n] by {
        let p = n / 4;
        let c = n % 4;
        vstd::arithmetic::div_mod::lemma_fundamental_div_mod(n, 4);
        vstd::arithmetic::div_mod::lemma_mod_division_less_than_divisor(n, 4);
        vstd::arithmetic::div_mod::lemma_div_pos_is_pos(n, 4);
        let i = p % w;
        let j = p / w;
        vstd::arithmetic::div_mod::lemma_fundamental_div_mod(p, w);
        vstd::arithmetic::div_mod::lemma_mod_division_less_than_divisor(p, w);
        vstd::arithmetic::div_mod::lemma_div_pos_is_pos(p, w);
        vstd::arithmetic::mul::lemma_mul_is_commutative(w, j);
        vstd::arithmetic::mul::lemma_mul_is_commutative(w, h);
        assert(p < w * h);
        if j >= h {
            vstd::arithmetic::mul::lemma_mul_inequality(h, j, w);
            assert(false);
        }
        assert(n == 4 * (j * w + i) + c);
        assert(spec_pixel(a, w, i, j, c) == spec_pixel(b, w, i, j, c));
    }
    assert(a =~= b);
}

/// The rotation round trip: a 90-degree rotation undone by a 270-degree
/// rotation restores every pixel of the source, byte for byte.
pub proof fn lemma_rotation_round_trip(src: Seq<u8>, mid: Seq<u8>, dst: Seq<u8>, w: int, h: int)
    requires
        1 <= w,
        1 <= h,
        src.len() == 4 * (w * h),
        dst.len() == 4 * (w * h),
        spec_rotated90_pixels(src, mid, w, h),
        spec_rotated270_pixels(mid, dst, h, w),
    ensures
        dst == src,
{
    assert forall|i: int, j: int, c: int|
        0 <= i < w && 0 <= j < h && 0 <= c < 4 implies #[trigger] spec_pixel(dst, w, i, j, c)
        == spec_pixel(src, w, i, j, c) by {
        assert(spec_pixel(dst, w, i, j, c) == spec_pixel(mid, h, h - 1 - j, i, c));
        assert(spec_pixel(mid, h, h - 1 - j, i, c) == spec_pixel(src, w, i, j, c));
    }
    lemma_pixelwise_bytes_equal(dst, src, w, h);
}

/// Two 180-degree rotations restore every pixel of the source, byte for
/// byte.
pub proof fn lemma_rotate180_involution(src: Seq<u8>, mid: Seq<u8>, dst: Seq<u8>, w: int, h: int)
    requires
        1 <= w,
        1 <= h,
        src.len() == 4 * (w * h),
        dst.len() == 4 * (w * h),
        spec_rotated180_pixels(src, mid, w, h),
        spec_rotated180_pixels(mid, dst, w, h),
    ensures
        dst == src,
{
    assert forall|i: int, j: int, c: int|
        0 <= i < w && 0 <= j < h && 0 <= c < 4 implies #[trigger] spec_pixel(dst, w, i, j, c)
        == spec_pixel(src, w, i, j, c) by {
        assert(spec_pixel(dst, w, i, j, c) == spec_pixel(mid, w, w - 1 - i, h - 1 - j, c));
        assert(spec_pixel(mid, w, w - 1 - i, h - 1 - j, c) == spec_pixel(src, w, i, j, c));
    }
    lemma_pixelwise_bytes_equal(dst, src, w, h);
}

/// Gluing the two buffer relations: an RGB buffer whose pixels are the
/// composite of an RGBA source, re-expanded to RGBA, is the flattened
/// source.
proof fn lemma_flatten_glue(src: Seq<u8>, rgb: Seq<u8>, dst: Seq<u8>, bg: (u8, u8, u8))
    requires
        src.len() % 4 == 0,
        rgb.len() == src.len() / 4 * 3,
        forall|j: int| 0 <= j < src.len() / 4 ==> #[trigger] spec_composited_at(src, rgb, bg, j),
        spec_rgb_expanded(rgb, dst),
    ensures
        spec_flattened(src, dst, bg),
{
    let n = src.len() / 4;
    vstd::arithmetic::div_mod::lemma_fundamental_div_mod(src.len() as int, 4);
    assert(src.len() == 4 * n);
    vstd::arithmetic::div_mod::lemma_div_multiples_vanish(n as int, 3);
    assert(rgb.len() / 3 == n);
    assert(dst.len() == src.len());
    assert forall|k: int| 0 <= k < n implies (#[trigger] dst[4 * k] == spec_blend(
        src[4 * k] as int,
        bg.0 as int,
        src[4 * k + 3] as int,
    ) && dst[4 * k + 1] == spec_blend(src[4 * k + 1] as int, bg.1 as int, src[4 * k + 3] as int)
        && dst[4 * k + 2] == spec_blend(src[4 * k + 2] as int, bg.2 as int, src[4 * k + 3] as int)
        && dst[4 * k + 3] == 255) by {
        assert(spec_composited_at(src, rgb, bg, k));
    }
}

} // verus!
