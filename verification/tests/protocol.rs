use image_batch_editor::color::{composite_over_background, parse_color};
use image_batch_editor::engine::BatchEngine;
use image_batch_editor::naming::{
    dec_string, file_stem, generate_output_path, padded_dec_string,
};
use image_batch_editor::options::{is_supported_extension, NamingOptions};
use image_batch_editor::registry::JobRegistry;

fn naming_keep() -> NamingOptions {
    NamingOptions {
        prefix: "".to_string(),
        suffix: "".to_string(),
        start_index: 0,
        pad: 0,
        keep_original: true,
    }
}

fn resolve(name: &str, format: &str, existing: Vec<&str>, naming: &NamingOptions) -> String {
    let existing: Vec<String> = existing.into_iter().map(|s| s.to_string()).collect();
    generate_output_path(
        &name.to_string(),
        &"out".to_string(),
        &format.to_string(),
        naming,
        0,
        false,
        &"/in/orig".to_string(),
        &existing,
    )
}

#[test]
fn naming_collision_appends_counters() {
    let naming = naming_keep();
    assert_eq!(resolve("photo.jpg", "jpg", vec![], &naming), "out/photo.jpg");
    assert_eq!(
        resolve("photo.jpg", "jpg", vec!["photo.jpg"], &naming),
        "out/photo_1.jpg"
    );
    assert_eq!(
        resolve("photo.jpg", "jpg", vec!["photo.jpg", "photo_1.jpg"], &naming),
        "out/photo_2.jpg"
    );
}

#[test]
fn naming_lowercases_format_extension() {
    let naming = naming_keep();
    assert_eq!(resolve("photo.png", "JPEG", vec![], &naming), "out/photo.jpeg");
}

#[test]
fn naming_sequence_is_zero_padded() {
    let naming = NamingOptions {
        prefix: "img_".to_string(),
        suffix: "".to_string(),
        start_index: 5,
        pad: 3,
        keep_original: false,
    };
    let existing: Vec<String> = Vec::new();
    let r = generate_output_path(
        &"whatever.png".to_string(),
        &"out".to_string(),
        &"png".to_string(),
        &naming,
        2,
        false,
        &"/in/orig".to_string(),
        &existing,
    );
    assert_eq!(r, "out/img_007.png");
}

#[test]
fn naming_prefix_and_suffix_wrap_stem() {
    let naming = NamingOptions {
        prefix: "pre-".to_string(),
        suffix: "-post".to_string(),
        start_index: 0,
        pad: 0,
        keep_original: true,
    };
    assert_eq!(
        resolve("photo.old.png", "png", vec![], &naming),
        "out/pre-photo.old-post.png"
    );
}

#[test]
fn decimal_rendering_and_padding() {
    assert_eq!(dec_string(0), "0");
    assert_eq!(dec_string(907), "907");
    assert_eq!(padded_dec_string(7, 3), "007");
    assert_eq!(padded_dec_string(1234, 3), "1234");
}

#[test]
fn file_stem_handles_dots() {
    assert_eq!(file_stem(&"photo.jpg".to_string()), "photo");
    assert_eq!(file_stem(&"archive.tar.gz".to_string()), "archive.tar");
    assert_eq!(file_stem(&".hidden".to_string()), ".hidden");
    assert_eq!(file_stem(&"plain".to_string()), "plain");
    assert_eq!(file_stem(&"".to_string()), "output");
}

#[test]
fn parse_color_reads_hex_channels() {
    assert_eq!(parse_color("#FF8000"), (255, 128, 0));
    assert_eq!(parse_color("1a2B3c"), (26, 43, 60));
    assert_eq!(parse_color("##FF8000"), (255, 128, 0));
}

#[test]
fn parse_color_falls_back_to_white() {
    assert_eq!(parse_color("bad"), (255, 255, 255));
    assert_eq!(parse_color(""), (255, 255, 255));
    assert_eq!(parse_color("#FF80001"), (255, 255, 255));
    assert_eq!(parse_color("#ZZGG00"), (255, 255, 0));
}

#[test]
fn composite_blends_each_channel() {
    let rgba: Vec<u8> = vec![100, 150, 200, 128, 10, 20, 30, 0];
    let rgb = composite_over_background(&rgba, (0, 0, 0));
    assert_eq!(rgb, vec![50, 75, 100, 0, 0, 0]);
    let rgb_white = composite_over_background(&rgba, (255, 255, 255));
    // src*128/255 + 255*127/255, exact integer arithmetic.
    assert_eq!(rgb_white, vec![177, 202, 227, 255, 255, 255]);
}

#[test]
fn cancellation_mid_batch_counts_only_completed() {
    let mut e = BatchEngine::new(5);
    for i in 0..2usize {
        assert!(e.should_continue());
        let p = e.begin_item(format!("file{}", i));
        assert_eq!(p.done, i);
        e.finish_item_ok(
            format!("file{}", i),
            format!("out{}", i),
            10,
            100,
            8,
            8,
        );
    }
    e.cancel();
    assert!(!e.should_continue());
    let s = e.finish();
    assert_eq!(s.total, 5);
    assert_eq!(s.success, 2);
    assert_eq!(s.failed, 0);
    assert_eq!(s.total_saved_bytes, 20);
}

#[test]
fn events_interleave_per_item_with_summary_last() {
    let mut e = BatchEngine::new(3);
    let mut log: Vec<String> = Vec::new();
    let outcomes = [true, false, true];
    let mut idx = 0usize;
    while e.should_continue() {
        let p = e.begin_item(format!("f{}", idx));
        log.push(format!("progress{}", p.done));
        if outcomes[idx] {
            e.finish_item_ok(format!("f{}", idx), format!("o{}", idx), 1, 1, 1, 1);
            log.push(format!("ok{}", idx));
        } else {
            let ev = e.finish_item_err(format!("f{}", idx), "boom".to_string());
            assert_eq!(ev.message, "boom");
            log.push(format!("err{}", idx));
        }
        idx += 1;
    }
    let s = e.finish();
    log.push("summary".to_string());
    assert_eq!(
        log,
        vec![
            "progress0", "ok0", "progress1", "err1", "progress2", "ok2", "summary"
        ]
    );
    assert_eq!(s.total, 3);
    assert_eq!(s.success, 2);
    assert_eq!(s.failed, 1);
}

#[test]
fn progress_percent_is_done_over_total() {
    let mut e = BatchEngine::new(4);
    let p0 = e.begin_item("a".to_string());
    assert_eq!(p0.percent, 0);
    e.finish_item_ok("a".to_string(), "b".to_string(), 0, 1, 1, 1);
    let p1 = e.begin_item("c".to_string());
    assert_eq!(p1.percent, 25);
}

#[test]
fn saved_bytes_saturate_instead_of_overflowing() {
    let mut e = BatchEngine::new(2);
    e.begin_item("a".to_string());
    e.finish_item_ok("a".to_string(), "b".to_string(), i64::MAX, 1, 1, 1);
    e.begin_item("c".to_string());
    e.finish_item_ok("c".to_string(), "d".to_string(), 10, 1, 1, 1);
    let s = e.finish();
    assert_eq!(s.total_saved_bytes, i64::MAX);
}

#[test]
fn registry_rejects_second_start() {
    let mut r = JobRegistry::new();
    assert!(!r.is_running());
    assert!(r.try_start().is_ok());
    assert!(r.is_running());
    let busy = r.try_start();
    assert_eq!(busy.err().unwrap(), "A batch is already running");
    r.finish();
    assert!(!r.is_running());
    assert!(r.try_start().is_ok());
}

#[test]
fn supported_extensions_are_the_closed_set() {
    for good in ["jpg", "jpeg", "png", "webp", "bmp", "gif"] {
        assert!(is_supported_extension(&good.to_string()));
    }
    for bad in ["tiff", "txt", "JPG", ""] {
        assert!(!is_supported_extension(&bad.to_string()));
    }
}
