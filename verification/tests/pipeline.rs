use image::{DynamicImage, ImageFormat, Rgba, RgbaImage};
use image_batch_editor::options::{
    BatchOptions, CropOptions, ImageFileInfo, NamingOptions, OutputOptions, ProcessFlags,
    ResizeOptions,
};
use image_batch_editor::process::process_single_image;

fn base_options() -> BatchOptions {
    BatchOptions {
        resize: ResizeOptions {
            mode: "none".to_string(),
            width: None,
            height: None,
            longest_side: None,
            keep_aspect: false,
            upscale_multiplier: None,
        },
        crop: CropOptions {
            enabled: false,
            aspect: "free".to_string(),
            x: 0,
            y: 0,
            width: 0,
            height: 0,
        },
        rotate: image_batch_editor::options::RotateOptions { degrees: 0 },
        output: OutputOptions {
            format: "png".to_string(),
            quality: 90,
            target_size_kb: None,
            background: None,
        },
        flags: ProcessFlags {
            strip_metadata: false,
            overwrite: false,
            recursive: false,
        },
        naming: NamingOptions {
            prefix: "".to_string(),
            suffix: "".to_string(),
            start_index: 0,
            pad: 0,
            keep_original: true,
        },
    }
}

fn file_info(name: &str, w: u32, h: u32) -> ImageFileInfo {
    ImageFileInfo {
        path: format!("/in/{}", name),
        name: name.to_string(),
        width: w,
        height: h,
    }
}

fn solid_png(w: u32, h: u32, px: [u8; 4]) -> Vec<u8> {
    let img = DynamicImage::ImageRgba8(RgbaImage::from_pixel(w, h, Rgba(px)));
    let mut c = std::io::Cursor::new(Vec::new());
    img.write_to(&mut c, ImageFormat::Png).unwrap();
    c.into_inner()
}

fn noisy_image(w: u32, h: u32) -> DynamicImage {
    let img = RgbaImage::from_fn(w, h, |x, y| {
        let v = (x.wrapping_mul(31).wrapping_add(y.wrapping_mul(57))) as u8;
        Rgba([v, v.wrapping_mul(3), v.wrapping_mul(7), 255])
    });
    DynamicImage::ImageRgba8(img)
}

fn run(
    bytes: &Vec<u8>,
    info: &ImageFileInfo,
    opts: &BatchOptions,
) -> Result<image_batch_editor::process::ItemOutcome, String> {
    let existing: Vec<String> = Vec::new();
    process_single_image(
        bytes,
        bytes.len() as u64,
        info,
        &"out".to_string(),
        opts,
        0,
        &existing,
    )
}

#[test]
fn crop_out_of_bounds_fails() {
    let bytes = solid_png(100, 60, [10, 20, 30, 255]);
    let mut opts = base_options();
    opts.crop.enabled = true;
    opts.crop.aspect = "free".to_string();
    opts.crop.x = 50;
    opts.crop.y = 0;
    opts.crop.width = 60;
    opts.crop.height = 40;
    let r = run(&bytes, &file_info("a.png", 100, 60), &opts);
    assert_eq!(r.err().unwrap(), "Crop dimensions out of bounds".to_string());

    let mut opts2 = base_options();
    opts2.crop.enabled = true;
    opts2.crop.x = 0;
    opts2.crop.y = 30;
    opts2.crop.width = 40;
    opts2.crop.height = 40;
    let r2 = run(&bytes, &file_info("a.png", 100, 60), &opts2);
    assert_eq!(r2.err().unwrap(), "Crop dimensions out of bounds".to_string());
}

#[test]
fn aspect_crop_square_is_centered() {
    let (x, y, w, h) = image_batch_editor::geometry::compute_aspect_crop(1000, 600, 1, 1);
    assert_eq!((x, y, w, h), (200, 0, 600, 600));

    let bytes = solid_png(1000, 600, [1, 2, 3, 255]);
    let mut opts = base_options();
    opts.crop.enabled = true;
    opts.crop.aspect = "1:1".to_string();
    let r = run(&bytes, &file_info("a.png", 1000, 600), &opts).unwrap();
    assert_eq!((r.out_width, r.out_height), (600, 600));
}

#[test]
fn aspect_crop_wide_ratios() {
    let c43 = image_batch_editor::geometry::compute_aspect_crop(1000, 600, 4, 3);
    assert_eq!(c43, (100, 0, 800, 600));
    let c169 = image_batch_editor::geometry::compute_aspect_crop(1000, 600, 16, 9);
    assert_eq!(c169, (0, 19, 1000, 562));
}

#[test]
fn resize_identity_is_pixel_exact() {
    let bytes = solid_png(10, 8, [90, 80, 70, 255]);
    let mut opts = base_options();
    opts.resize.mode = "fixed".to_string();
    opts.resize.width = Some(10);
    opts.resize.height = Some(8);
    let r = run(&bytes, &file_info("a.png", 10, 8), &opts).unwrap();
    assert_eq!((r.out_width, r.out_height), (10, 8));
    let round = image::load_from_memory(&r.bytes).unwrap();
    let original = image::load_from_memory(&bytes).unwrap();
    assert_eq!(round.to_rgba8().into_raw(), original.to_rgba8().into_raw());
}

#[test]
fn upscale_multiplier_is_exact() {
    let bytes = solid_png(100, 80, [5, 5, 5, 255]);
    let mut opts = base_options();
    opts.resize.mode = "upscale".to_string();
    opts.resize.upscale_multiplier = Some(3);
    let r = run(&bytes, &file_info("a.png", 100, 80), &opts).unwrap();
    assert_eq!((r.out_width, r.out_height), (300, 240));
}

#[test]
fn upscale_default_multiplier_doubles() {
    let bytes = solid_png(30, 20, [5, 5, 5, 255]);
    let mut opts = base_options();
    opts.resize.mode = "upscale".to_string();
    let r = run(&bytes, &file_info("a.png", 30, 20), &opts).unwrap();
    assert_eq!((r.out_width, r.out_height), (60, 40));
}

#[test]
fn longest_side_scales_proportionally() {
    let bytes = solid_png(100, 80, [5, 5, 5, 255]);
    let mut opts = base_options();
    opts.resize.mode = "longest-side".to_string();
    opts.resize.longest_side = Some(50);
    let r = run(&bytes, &file_info("a.png", 100, 80), &opts).unwrap();
    assert_eq!((r.out_width, r.out_height), (50, 40));
}

#[test]
fn fixed_keep_aspect_fits_inside_box() {
    let bytes = solid_png(100, 80, [5, 5, 5, 255]);
    let mut opts = base_options();
    opts.resize.mode = "fixed".to_string();
    opts.resize.width = Some(50);
    opts.resize.height = Some(50);
    opts.resize.keep_aspect = true;
    let r = run(&bytes, &file_info("a.png", 100, 80), &opts).unwrap();
    assert_eq!((r.out_width, r.out_height), (50, 40));
}

#[test]
fn rotate_90_swaps_dimensions() {
    let bytes = solid_png(10, 8, [1, 2, 3, 255]);
    let mut opts = base_options();
    opts.rotate.degrees = 90;
    let r = run(&bytes, &file_info("a.png", 10, 8), &opts).unwrap();
    assert_eq!((r.out_width, r.out_height), (8, 10));
    opts.rotate.degrees = 180;
    let r2 = run(&bytes, &file_info("a.png", 10, 8), &opts).unwrap();
    assert_eq!((r2.out_width, r2.out_height), (10, 8));
    opts.rotate.degrees = 45;
    let r3 = run(&bytes, &file_info("a.png", 10, 8), &opts).unwrap();
    assert_eq!((r3.out_width, r3.out_height), (10, 8));
}

#[test]
fn jpeg_flattens_transparency_over_background() {
    let bytes = solid_png(4, 4, [200, 100, 50, 128]);
    let mut opts = base_options();
    opts.output.format = "jpeg".to_string();
    opts.output.background = Some("#000000".to_string());
    let r = run(&bytes, &file_info("a.png", 4, 4), &opts).unwrap();
    let out = image::load_from_memory(&r.bytes).unwrap();
    assert!(!out.color().has_alpha());
    let px = out.to_rgba8().get_pixel(1, 1).0;
    // Expected composite over black: channel * 128 / 255, within JPEG noise.
    let expect = [100i32, 50, 25];
    for c in 0..3 {
        assert!((px[c] as i32 - expect[c]).abs() <= 6, "channel {} was {}", c, px[c]);
    }
    assert_eq!(px[3], 255);
}

#[test]
fn target_size_search_steps_down() {
    let img = noisy_image(128, 128);
    let fmt = "jpeg".to_string();
    let o = image_batch_editor::encoder::encode_with_target_size(&img, &fmt, 90, 1).unwrap();
    assert!(o.attempts <= 10);
    assert!(o.quality >= 10 && o.quality <= 90);
    assert_eq!((90 - o.quality) % 10, 0);
    if o.bytes.len() > 1024 {
        assert_eq!(o.quality, 10);
    }
}

#[test]
fn target_size_met_on_first_try_keeps_quality() {
    let img = noisy_image(16, 16);
    let fmt = "jpeg".to_string();
    let o = image_batch_editor::encoder::encode_with_target_size(&img, &fmt, 90, 10000).unwrap();
    assert_eq!(o.attempts, 1);
    assert_eq!(o.quality, 90);
    assert!(o.bytes.len() <= 10000 * 1024);
}

#[test]
fn webp_output_is_riff() {
    let bytes = solid_png(16, 16, [9, 9, 9, 255]);
    let mut opts = base_options();
    opts.output.format = "webp".to_string();
    let r = run(&bytes, &file_info("a.png", 16, 16), &opts).unwrap();
    assert!(r.bytes.len() >= 4);
    assert_eq!(&r.bytes[0..4], b"RIFF");
    assert!(r.out_file.ends_with(".webp"));
}

#[test]
fn undecodable_input_is_an_item_error() {
    let bytes: Vec<u8> = vec![1, 2, 3, 4, 5];
    let opts = base_options();
    let r = run(&bytes, &file_info("a.png", 1, 1), &opts);
    assert!(r.is_err());
}

#[test]
fn saved_bytes_accounts_for_growth_and_shrink() {
    let bytes = solid_png(64, 64, [7, 7, 7, 255]);
    let opts = base_options();
    let r = run(&bytes, &file_info("a.png", 64, 64), &opts).unwrap();
    assert_eq!(r.out_size as usize, r.bytes.len());
    assert_eq!(r.saved_bytes, bytes.len() as i64 - r.bytes.len() as i64);
}

#[test]
fn overwrite_returns_original_path() {
    let bytes = solid_png(8, 8, [7, 7, 7, 255]);
    let mut opts = base_options();
    opts.flags.overwrite = true;
    let r = run(&bytes, &file_info("a.png", 8, 8), &opts).unwrap();
    assert_eq!(r.out_file, "/in/a.png".to_string());
}

#[test]
fn upscale_multiplies_post_rotate_dimensions() {
    let bytes = solid_png(100, 80, [5, 5, 5, 255]);
    let mut opts = base_options();
    opts.rotate.degrees = 90;
    opts.resize.mode = "upscale".to_string();
    opts.resize.upscale_multiplier = Some(2);
    let r = run(&bytes, &file_info("a.png", 100, 80), &opts).unwrap();
    // The stage entering resize is the rotated 80x100 picture.
    assert_eq!((r.out_width, r.out_height), (160, 200));
}

#[test]
fn upscale_multiplies_post_crop_dimensions() {
    let bytes = solid_png(100, 80, [5, 5, 5, 255]);
    let mut opts = base_options();
    opts.crop.enabled = true;
    opts.crop.aspect = "free".to_string();
    opts.crop.x = 0;
    opts.crop.y = 0;
    opts.crop.width = 50;
    opts.crop.height = 80;
    opts.resize.mode = "upscale".to_string();
    opts.resize.upscale_multiplier = Some(2);
    let r = run(&bytes, &file_info("a.png", 100, 80), &opts).unwrap();
    assert_eq!((r.out_width, r.out_height), (100, 160));
}

#[test]
fn jpg_alias_flattens_transparency_too() {
    let bytes = solid_png(4, 4, [200, 100, 50, 128]);
    let mut opts = base_options();
    opts.output.format = "jpg".to_string();
    opts.output.background = Some("#000000".to_string());
    let r = run(&bytes, &file_info("a.png", 4, 4), &opts).unwrap();
    assert!(r.out_file.ends_with(".jpg"));
    let out = image::load_from_memory(&r.bytes).unwrap();
    assert!(!out.color().has_alpha());
    let px = out.to_rgba8().get_pixel(2, 2).0;
    let expect = [100i32, 50, 25];
    for c in 0..3 {
        assert!((px[c] as i32 - expect[c]).abs() <= 6, "channel {} was {}", c, px[c]);
    }
}

#[test]
fn decode_failure_carries_decode_prefix() {
    let bytes: Vec<u8> = vec![0, 1, 2, 3, 4, 5, 6, 7];
    let opts = base_options();
    let err = run(&bytes, &file_info("a.png", 1, 1), &opts).err().unwrap();
    assert!(err.starts_with("Failed to decode: "), "got: {}", err);
}
