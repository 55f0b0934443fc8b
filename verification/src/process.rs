//! Processing one item: decode, then crop, rotate, resize or upscale,
//! flatten for opaque formats, encode per the output options, and resolve
//! the output name against the files already present. The driver hands in
//! the file's bytes and the directory listing and writes the returned
//! bytes; nothing here touches a disk.
use vstd::prelude::*;
use crate::encoder::{encode_for_output, spec_encoded_bytes, spec_search_result, EncodeOutcome};
use crate::engine::spec_saturating_add_i64;
use crate::geometry::{spec_crop_rect, spec_rect_in_bounds, spec_resize_target, spec_rotated_dims};
use crate::naming::{generate_output_path, spec_base_name, spec_lower_of, spec_resolved};
use crate::options::{spec_format_is_jpeg, spec_format_is_png, spec_format_is_webp, BatchOptions,
    CropOptions, ImageFileInfo};
use crate::picture::{apply_crop, apply_format_conversion, apply_resize, apply_scale, decode_image,
    img_height, img_width, spec_decode_ok, spec_decoded_height, spec_decoded_width,
    spec_has_alpha, spec_height, spec_width};

verus! {

/// The crop stage's output dimensions on a `w` by `h` picture.
pub open spec fn spec_crop_dims(c: CropOptions, w: int, h: int) -> (int, int) {
    if !c.enabled {
        (w, h)
    } else {
        let rect = spec_crop_rect(c, w, h);
        (rect.2, rect.3)
    }
}

/// Whether the crop stage accepts: disabled, or the resolved rectangle
/// lies within the picture.
pub open spec fn spec_crop_ok(c: CropOptions, w: int, h: int) -> bool {
    !c.enabled || ({
        let rect = spec_crop_rect(c, w, h);
        spec_rect_in_bounds(rect.0, rect.1, rect.2, rect.3, w, h)
    })
}

/// The upscale multiplier a resize request asks for (2 when unset).
pub open spec fn spec_multiplier(o: BatchOptions) -> int {
    match o.resize.upscale_multiplier {
        Some(m) => m as int,
        None => 2,
    }
}

/// The dimensions the whole transform chain yields on a `w0` by `h0`
/// source: crop, then rotate, then resize; the upscale mode multiplies
/// the dimensions entering the resize stage (the final intended geometry,
/// after crop and rotate) by the integer multiplier.
pub open spec fn spec_transform_dims(o: BatchOptions, w0: int, h0: int) -> (int, int) {
    let c = spec_crop_dims(o.crop, w0, h0);
    let r = spec_rotated_dims(o.rotate.degrees as int, c.0, c.1);
    if o.resize.mode@ == "upscale"@ {
        (r.0 * spec_multiplier(o), r.1 * spec_multiplier(o))
    } else {
        spec_resize_target(o.resize, r.0, r.1)
    }
}

/// Whether the whole transform chain accepts a `w0` by `h0` source: the
/// crop is in bounds, nothing collapses to an empty axis, and an upscale
/// box still fits in 32 bits.
pub open spec fn spec_transform_ok(o: BatchOptions, w0: int, h0: int) -> bool {
    let c = spec_crop_dims(o.crop, w0, h0);
    let t = spec_transform_dims(o, w0, h0);
    spec_crop_ok(o.crop, w0, h0) && c.0 >= 1 && c.1 >= 1 && t.0 >= 1 && t.1 >= 1 && (
    o.resize.mode@ == "upscale"@ ==> (t.0 <= u32::MAX && t.1 <= u32::MAX))
}

/// Applies the transform chain to a decoded picture: crop, rotate,
/// resize or upscale, then the format-driven flatten. Accepts exactly
/// when `spec_transform_ok` holds of the picture's dimensions, and then
/// yields exactly the dimensions `spec_transform_dims` gives.
pub fn transform_image(img: image::DynamicImage, options: &BatchOptions) -> (r: Result<
    image::DynamicImage,
    String,
>)
    requires
        1 <= spec_width(img),
        1 <= spec_height(img),
    ensures
        r is Ok <==> spec_transform_ok(*options, spec_width(img) as int, spec_height(img) as int),
        r is Ok ==> ({
            let t = spec_transform_dims(
                *options,
                spec_width(img) as int,
                spec_height(img) as int,
            );
            spec_width(r->Ok_0) == t.0 && spec_height(r->Ok_0) == t.1 && spec_has_alpha(r->Ok_0)
                == (spec_has_alpha(img) && !spec_format_is_jpeg(options.output.format@))
        }),
        !spec_crop_ok(options.crop, spec_width(img) as int, spec_height(img) as int) ==> (
        r is Err && r->Err_0@ == "Crop dimensions out of bounds"@),
{
    let w0 = img_width(&img);
    let h0 = img_height(&img);
    let cropped = if options.crop.enabled {
        match apply_crop(img, &options.crop) {
            Ok(p) => p,
            Err(e) => {
                return Err(e);
            },
        }
    } else {
        img
    };
    let cw = img_width(&cropped);
    let ch = img_height(&cropped);
    if cw == 0 || ch == 0 {
        return Err("Image is empty".to_owned());
    }
    let rotated = crate::picture::apply_rotate(cropped, options.rotate.degrees);
    let resized = if crate::options::str_is(&options.resize.mode, "upscale") {
        let mult = match options.resize.upscale_multiplier {
            Some(m) => m,
            None => 2,
        };
        if mult == 0 {
            return Err("Resize target is empty".to_owned());
        }
        let rw = img_width(&rotated);
        let rh = img_height(&rotated);
        match crate::geometry::compute_upscale(rw, rh, mult) {
            Some((tw, th)) => {
                match apply_scale(rotated, tw, th) {
                    Ok(p) => p,
                    Err(e) => {
                        return Err(e);
                    },
                }
            },
            None => {
                return Err("Resize target is empty".to_owned());
            },
        }
    } else {
        match apply_resize(rotated, &options.resize) {
            Ok(p) => p,
            Err(e) => {
                return Err(e);
            },
        }
    };
    Ok(apply_format_conversion(resized, &options.output))
}

/// Everything the driver needs to finish one successful item: the
/// resolved output path, the encoded bytes to write there, the output
/// dimensions, and the size accounting.
pub struct ItemOutcome {
    /// The resolved output path.
    pub out_file: String,
    /// The encoded output, exactly as accepted from the encoder.
    pub bytes: Vec<u8>,
    /// The source dimensions the loader reported.
    pub src_width: u32,
    /// The source height the loader reported.
    pub src_height: u32,
    /// The output dimensions.
    pub out_width: u32,
    /// The output height.
    pub out_height: u32,
    /// The encoded size in bytes.
    pub out_size: u64,
    /// Source size minus output size, clamped; negative when the output
    /// grew.
    pub saved_bytes: i64,
    /// The encoder's search outcome for this item.
    pub encode: Ghost<EncodeOutcome>,
    /// The transformed picture the bytes encode.
    pub pic: Ghost<image::DynamicImage>,
}

/// Processes one item from its raw file bytes: decode, transform, encode,
/// and name resolution against the given directory listing. On success
/// the outcome's dimensions are the transform chain's dimensions for the
/// decoded source, the byte accounting matches, and the output path is
/// the first collision-free candidate (or the original path when
/// overwriting). Any stage's failure is returned as the item's error and
/// produces no outcome.
pub fn process_single_image(
    file_bytes: &Vec<u8>,
    original_size: u64,
    file_info: &ImageFileInfo,
    output_dir: &String,
    options: &BatchOptions,
    index: usize,
    existing: &Vec<String>,
) -> (r: Result<ItemOutcome, String>)
    requires
        options.naming.start_index as int + index as int <= u64::MAX,
        existing@.len() < usize::MAX,
    ensures
        r is Ok ==> ({
            let o = r->Ok_0;
            let t = spec_transform_dims(*options, o.src_width as int, o.src_height as int);
            &&& spec_transform_ok(*options, o.src_width as int, o.src_height as int)
            &&& o.out_width == t.0 && o.out_height == t.1
            &&& o.out_size == o.bytes@.len()
            &&& o.saved_bytes == spec_saturating_add_i64(
                original_size as int,
                -(o.bytes@.len() as int),
            )
            &&& options.flags.overwrite ==> o.out_file@ == file_info.path@
            &&& !options.flags.overwrite ==> spec_resolved(
                o.out_file@,
                output_dir@,
                spec_base_name(options.naming, file_info.name@, index as int),
                spec_lower_of(options.output.format@),
                existing@,
            )
            &&& options.output.target_size_kb is Some ==> spec_search_result(
                o.encode@,
                if options.output.quality > 100 {
                    100int
                } else {
                    options.output.quality as int
                },
                options.output.target_size_kb->0 as int * 1024,
            )
            &&& o.bytes@ == o.encode@.bytes@
            &&& o.out_width == spec_width(o.pic@) && o.out_height == spec_height(o.pic@)
            &&& o.bytes@ == spec_encoded_bytes(
                o.pic@,
                options.output.format@,
                o.encode@.quality as int,
            )
        }),
        r is Ok ==> spec_decode_ok(file_bytes@),
        !spec_decode_ok(file_bytes@) ==> r is Err,
        r is Ok ==> (r->Ok_0.src_width == spec_decoded_width(file_bytes@) && r->Ok_0.src_height
            == spec_decoded_height(file_bytes@)),
        ({
            let dw = spec_decoded_width(file_bytes@) as int;
            let dh = spec_decoded_height(file_bytes@) as int;
            let t = spec_transform_dims(*options, dw, dh);
            (spec_decode_ok(file_bytes@) && dw >= 1 && dh >= 1 && spec_transform_ok(
                *options,
                dw,
                dh,
            ) && !spec_format_is_png(options.output.format@) && !spec_format_is_webp(
                options.output.format@,
            ) && 1 <= t.0 <= 65535 && 1 <= t.1 <= 65535) ==> r is Ok
        }),
        ({
            let dw = spec_decoded_width(file_bytes@) as int;
            let dh = spec_decoded_height(file_bytes@) as int;
            (spec_decode_ok(file_bytes@) && dw >= 1 && dh >= 1 && !spec_crop_ok(
                options.crop,
                dw,
                dh,
            )) ==> (r is Err && r->Err_0@ == "Crop dimensions out of bounds"@)
        }),
{
    let img = match decode_image(file_bytes) {
        Ok(i) => i,
        Err(e) => {
            let mut message = String::from_str("Failed to decode: ");
            message.append(e.as_str());
            return Err(message);
        },
    };
    let w0 = img_width(&img);
    let h0 = img_height(&img);
    if w0 == 0 || h0 == 0 {
        return Err("Image is empty".to_owned());
    }
    let processed = match transform_image(img, options) {
        Ok(p) => p,
        Err(e) => {
            return Err(e);
        },
    };
    let out_width = img_width(&processed);
    let out_height = img_height(&processed);
    let outcome = match encode_for_output(&processed, &options.output) {
        Ok(o) => o,
        Err(e) => {
            return Err(e);
        },
    };
    let out_file = generate_output_path(
        &file_info.name,
        output_dir,
        &options.output.format,
        &options.naming,
        index,
        options.flags.overwrite,
        &file_info.path,
        existing,
    );
    let out_size = outcome.bytes.len() as u64;
    let diff: i128 = (original_size as i128) - (out_size as i128);
    let saved: i64 = if diff > i64::MAX as i128 {
        i64::MAX
    } else if diff < i64::MIN as i128 {
        i64::MIN
    } else {
        diff as i64
    };
    let ghost enc = outcome;
    let ghost pic = processed;
    let EncodeOutcome { bytes, quality: _, attempts: _, trial_sizes: _ } = outcome;
    Ok(
        ItemOutcome {
            out_file,
            bytes,
            src_width: w0,
            src_height: h0,
            out_width,
            out_height,
            out_size,
            saved_bytes: saved,
            encode: Ghost(enc),
            pic: Ghost(pic),
        },
    )
}

} // verus!
