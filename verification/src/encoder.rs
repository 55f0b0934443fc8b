//! The format/quality encoder. A buffer is encoded at a requested quality;
//! with a target size, a monotonic step-down search re-encodes at ever
//! lower quality until the output fits, the quality floor (10) is reached,
//! or the attempt cap (10) is spent. The codec outputs are deterministic
//! functions of the picture and the quality, so they carry names; the
//! search decisions are verified over the observed trial sizes.
use vstd::prelude::*;
use crate::options::{spec_format_is_png, spec_format_is_webp, OutputOptions};
use crate::picture::{spec_height, spec_width};

verus! {

/// What the JPEG codec produces for a picture at a quality: a function of
/// the picture and the quality alone.
pub uninterp spec fn spec_jpeg_bytes(img: image::DynamicImage, quality: int) -> Seq<u8>;

/// What the PNG codec produces for a picture; PNG is lossless and takes
/// no quality, so the name has none.
pub uninterp spec fn spec_png_bytes(img: image::DynamicImage) -> Seq<u8>;

/// Whether the PNG codec accepts a picture (it rejects empty dimensions
/// and color layouts PNG cannot carry); a function of the picture alone.
pub uninterp spec fn spec_png_ok(img: image::DynamicImage) -> bool;

/// What the WebP codec produces for a picture at a quality: a function of
/// the picture and the quality alone.
pub uninterp spec fn spec_webp_bytes(img: image::DynamicImage, quality: int) -> Seq<u8>;

/// Relies on image::codecs::jpeg::JpegEncoder::new_with_quality and
/// encode_image: succeeds exactly when both dimensions are in 1..=65535
/// (the codec encodes the RGBA view, silently discarding alpha, and
/// clamps the quality internally); the bytes are a function of the
/// picture and the quality.
#[verifier::external_body]
fn encode_jpeg(img: &image::DynamicImage, quality: u8) -> (r: Result<Vec<u8>, String>)
    ensures
        r is Ok <==> (1 <= spec_width(*img) <= 65535 && 1 <= spec_height(*img) <= 65535),
        r is Ok ==> r->Ok_0@ == spec_jpeg_bytes(*img, quality as int),
{
    let mut cursor = std::io::Cursor::new(Vec::new());
    let mut encoder = image::codecs::jpeg::JpegEncoder::new_with_quality(&mut cursor, quality);
    match encoder.encode_image(img) {
        Ok(()) => Ok(cursor.into_inner()),
        Err(e) => Err(e.to_string()),
    }
}

/// Relies on DynamicImage::write_to with ImageFormat::Png: failures
/// (empty dimensions, unsupported color layouts) are returned, and the
/// bytes are a function of the picture alone.
#[verifier::external_body]
fn encode_png(img: &image::DynamicImage) -> (r: Result<Vec<u8>, String>)
    ensures
        r is Ok <==> spec_png_ok(*img),
        spec_width(*img) == 0 || spec_height(*img) == 0 ==> r is Err,
        r is Ok ==> r->Ok_0@ == spec_png_bytes(*img),
{
    let mut cursor = std::io::Cursor::new(Vec::new());
    match img.write_to(&mut cursor, image::ImageFormat::Png) {
        Ok(()) => Ok(cursor.into_inner()),
        Err(e) => Err(e.to_string()),
    }
}

/// Relies on webp::Encoder::from_rgba and encode_simple (via the
/// picture's to_rgba8 expansion): libwebp's failures are returned, not
/// unwrapped; it rejects a quality above 100, empty dimensions, and
/// dimensions beyond the VP8 limit of 16383, and may fail for reasons of
/// its own (such as memory), so success is never promised.
#[verifier::external_body]
fn encode_webp(img: &image::DynamicImage, quality: u8) -> (r: Result<Vec<u8>, String>)
    ensures
        r is Ok ==> r->Ok_0@ == spec_webp_bytes(*img, quality as int),
        quality > 100 ==> r is Err,
        spec_width(*img) == 0 || spec_height(*img) == 0 ==> r is Err,
        spec_width(*img) > 16383 || spec_height(*img) > 16383 ==> r is Err,
{
    let rgba = img.to_rgba8();
    let encoder = webp::Encoder::from_rgba(rgba.as_raw(), rgba.width(), rgba.height());
    match encoder.encode_simple(false, quality.into()) {
        Ok(memory) => Ok(memory.to_vec()),
        Err(e) => Err(format!("{:?}", e)),
    }
}

/// The bytes the encoder owes for a format string: `"png"` and `"webp"`
/// select their codecs, everything else (the `"jpeg"`/`"jpg"` family and
/// unknown formats) the JPEG codec.
pub open spec fn spec_encoded_bytes(
    img: image::DynamicImage,
    format: Seq<char>,
    quality: int,
) -> Seq<u8> {
    if spec_format_is_png(format) {
        spec_png_bytes(img)
    } else if spec_format_is_webp(format) {
        spec_webp_bytes(img, quality)
    } else {
        spec_jpeg_bytes(img, quality)
    }
}

/// Encodes the picture once in the named format at the given quality.
/// `"png"` ignores the quality; everything that is not `"png"` or
/// `"webp"` uses the JPEG codec, which discards alpha. The returned bytes
/// are exactly the selected codec's output.
pub fn encode_with_quality(img: &image::DynamicImage, format: &String, quality: u8) -> (r: Result<
    Vec<u8>,
    String,
>)
    ensures
        r is Ok ==> r->Ok_0@ == spec_encoded_bytes(*img, format@, quality as int),
        spec_format_is_png(format@) ==> (r is Ok <==> spec_png_ok(*img)),
        !spec_format_is_png(format@) && !spec_format_is_webp(format@) ==> (r is Ok <==> (1
            <= spec_width(*img) <= 65535 && 1 <= spec_height(*img) <= 65535)),
        spec_format_is_webp(format@) && quality > 100 ==> r is Err,
{
    proof {
        reveal_strlit("png");
        reveal_strlit("webp");
        assert("png"@.len() == 3);
        assert("webp"@.len() == 4);
        assert("png"@ != "webp"@);
    }
    if crate::options::str_is(format, "png") {
        encode_png(img)
    } else if crate::options::str_is(format, "webp") {
        encode_webp(img, quality)
    } else {
        encode_jpeg(img, quality)
    }
}

/// One step of the quality search: 10 off, stopping at zero.
pub open spec fn spec_quality_step(q: int) -> int {
    if q >= 10 {
        q - 10
    } else {
        0
    }
}

/// The quality used for trial `k` of a search that started at `initial`.
pub open spec fn spec_quality_at(initial: int, k: nat) -> int
    decreases k,
{
    if k == 0 {
        initial
    } else {
        spec_quality_step(spec_quality_at(initial, (k - 1) as nat))
    }
}

/// An accepted encode: the bytes, the quality they were encoded at, and
/// the trail of the search that produced them.
pub struct EncodeOutcome {
    /// The accepted trial's bytes, exactly as the codec produced them.
    pub bytes: Vec<u8>,
    /// The quality the accepted trial was encoded at.
    pub quality: u8,
    /// How many encode attempts were made, the accepted one included.
    pub attempts: usize,
    /// The byte size each attempt produced, in order.
    pub trial_sizes: Ghost<Seq<int>>,
}

/// Trial `k` of a search was rejected: its size was over target while the
/// quality stood above the floor and the attempt cap was not reached.
pub open spec fn spec_trial_rejected(sizes: Seq<int>, initial: int, tb: int, k: int) -> bool {
    sizes[k] > tb && spec_quality_at(initial, k as nat) > 10 && k < 10
}

/// What the step-down search guarantees of its outcome, for a search that
/// started at `initial` with a byte target of `tb`: the accepted trial is
/// the last; it met the target, or the quality floor or attempt cap was
/// hit; and every earlier trial was over target, above the floor and
/// under the cap.
pub open spec fn spec_search_result(o: EncodeOutcome, initial: int, tb: int) -> bool {
    let n = o.attempts as int;
    1 <= n <= 11 && o.trial_sizes@.len() == n && o.quality == spec_quality_at(
        initial,
        (n - 1) as nat,
    ) && o.trial_sizes@[n - 1] == o.bytes@.len() && (o.bytes@.len() <= tb || n - 1 >= 10
        || o.quality <= 10) && forall|k: int|
        0 <= k < n - 1 ==> #[trigger] spec_trial_rejected(o.trial_sizes@, initial, tb, k)
}

/// Encodes the picture repeatedly, stepping the quality down by 10 after
/// every trial whose size exceeds `target_kb` kilobytes, and accepts the
/// first trial that fits, reaches quality 10 or below, or is the
/// eleventh. A starting quality above 100 is treated as 100. Only the
/// accepted trial's bytes survive, and they are exactly the codec's
/// output at the accepted quality; rejected trials are discarded.
pub fn encode_with_target_size(
    img: &image::DynamicImage,
    format: &String,
    initial_quality: u8,
    target_kb: u32,
) -> (r: Result<EncodeOutcome, String>)
    ensures
        r is Ok ==> spec_search_result(
            r->Ok_0,
            if initial_quality > 100 {
                100int
            } else {
                initial_quality as int
            },
            target_kb as int * 1024,
        ),
        r is Ok ==> r->Ok_0.bytes@ == spec_encoded_bytes(
            *img,
            format@,
            r->Ok_0.quality as int,
        ),
        spec_format_is_png(format@) ==> (r is Ok <==> spec_png_ok(*img)),
        !spec_format_is_png(format@) && !spec_format_is_webp(format@) ==> (r is Ok <==> (1
            <= spec_width(*img) <= 65535 && 1 <= spec_height(*img) <= 65535)),
{
    let target_bytes: u64 = (target_kb as u64) * 1024;
    let initial: u8 = if initial_quality > 100 {
        100
    } else {
        initial_quality
    };
    let mut quality: u8 = initial;
    let mut it: usize = 0;
    let ghost mut sizes: Seq<int> = Seq::empty();
    loop
        invariant
            it <= 10,
            initial as int == if initial_quality > 100 {
                100int
            } else {
                initial_quality as int
            },
            quality == spec_quality_at(initial as int, it as nat),
            sizes.len() == it,
            target_bytes == target_kb as int * 1024,
            forall|k: int|
                0 <= k < it ==> #[trigger] spec_trial_rejected(
                    sizes,
                    initial as int,
                    target_bytes as int,
                    k,
                ),
        decreases 10 - it,
    {
        let bytes = match encode_with_quality(img, format, quality) {
            Ok(b) => b,
            Err(e) => {
                return Err(e);
            },
        };
        let size = bytes.len();
        let ghost prev_sizes = sizes;
        proof {
            sizes = sizes.push(size as int);
        }
        if (size as u64) <= target_bytes || it >= 10 || quality <= 10 {
            proof {
                assert forall|k: int| 0 <= k < it implies #[trigger] spec_trial_rejected(
                    sizes,
                    initial as int,
                    target_bytes as int,
                    k,
                ) by {
                    assert(spec_trial_rejected(
                        prev_sizes,
                        initial as int,
                        target_bytes as int,
                        k,
                    ));
                    assert(sizes[k] == prev_sizes[k]);
                }
            }
            return Ok(
                EncodeOutcome {
                    bytes,
                    quality,
                    attempts: it + 1,
                    trial_sizes: Ghost(sizes),
                },
            );
        }
        proof {
            assert forall|k: int| 0 <= k < it + 1 implies #[trigger] spec_trial_rejected(
                sizes,
                initial as int,
                target_bytes as int,
                k,
            ) by {
                if k < it {
                    assert(spec_trial_rejected(
                        prev_sizes,
                        initial as int,
                        target_bytes as int,
                        k,
                    ));
                    assert(sizes[k] == prev_sizes[k]);
                }
            }
        }
        quality = if quality >= 10 {
            quality - 10
        } else {
            0
        };
        it = it + 1;
    }
}

/// Encodes a picture per the output options: a single encode at the
/// requested quality, or the step-down size search when a target size is
/// set. The outcome's bytes are exactly the codec's output at the
/// outcome's quality, and the trail describes what was attempted.
pub fn encode_for_output(img: &image::DynamicImage, output: &OutputOptions) -> (r: Result<
    EncodeOutcome,
    String,
>)
    ensures
        r is Ok ==> r->Ok_0.bytes@ == spec_encoded_bytes(
            *img,
            output.format@,
            r->Ok_0.quality as int,
        ),
        output.target_size_kb is Some ==> (r is Ok ==> spec_search_result(
            r->Ok_0,
            if output.quality > 100 {
                100int
            } else {
                output.quality as int
            },
            output.target_size_kb->0 as int * 1024,
        )),
        output.target_size_kb is None ==> (r is Ok ==> ({
            let o = r->Ok_0;
            o.attempts == 1 && o.quality == output.quality && o.trial_sizes@ =~= seq![
                o.bytes@.len() as int,
            ]
        })),
        spec_format_is_png(output.format@) ==> (r is Ok <==> spec_png_ok(*img)),
        !spec_format_is_png(output.format@) && !spec_format_is_webp(output.format@) ==> (
        r is Ok <==> (1 <= spec_width(*img) <= 65535 && 1 <= spec_height(*img) <= 65535)),
{
    match output.target_size_kb {
        Some(kb) => encode_with_target_size(img, &output.format, output.quality, kb),
        None => {
            match encode_with_quality(img, &output.format, output.quality) {
                Ok(bytes) => {
                    let size = bytes.len();
                    let ghost trail: Seq<int> = seq![size as int];
                    Ok(
                        EncodeOutcome {
                            bytes,
                            quality: output.quality,
                            attempts: 1,
                            trial_sizes: Ghost(trail),
                        },
                    )
                },
                Err(e) => Err(e),
            }
        },
    }
}

/// A lossless format takes no quality: the bytes the encoder owes for
/// `"png"` are the same whatever quality is requested.
pub proof fn lemma_png_ignores_quality(img: image::DynamicImage, q1: int, q2: int)
    ensures
        spec_encoded_bytes(img, "png"@, q1) == spec_encoded_bytes(img, "png"@, q2),
{
}

/// The convergence guarantee of the size-targeting search, for a search
/// started at quality 90: it stops within ten attempts, every rejected
/// trial was over target, the accepted quality is exactly `90 - 10 *
/// (attempts - 1)`, and the accepted trial met the target unless the
/// floor quality 10 was reached.
pub proof fn lemma_target_size_convergence(o: EncodeOutcome, tb: int)
    requires
        spec_search_result(o, 90, tb),
    ensures
        o.attempts <= 9,
        o.quality == 90 - 10 * (o.attempts - 1),
        o.quality >= 10,
        o.bytes@.len() <= tb || o.quality == 10,
        forall|k: int| 0 <= k < o.attempts - 1 ==> #[trigger] o.trial_sizes@[k] > tb,
{
    let n = o.attempts as int;
    assert forall|k: nat| k <= 9 implies spec_quality_at(90, k) == 90 - 10 * k by {
        lemma_quality_at_exact(90, k);
    }
    if n - 1 >= 9 {
        assert(spec_quality_at(90, 8) == 10);
        assert(spec_trial_rejected(o.trial_sizes@, 90, tb, 8));
        assert(false);
    }
    assert forall|k: int| 0 <= k < o.attempts - 1 implies #[trigger] o.trial_sizes@[k] > tb by {
        assert(spec_trial_rejected(o.trial_sizes@, 90, tb, k));
    }
}

/// While the floor has not been passed, each trial's quality is exactly
/// ten less than the one before.
proof fn lemma_quality_at_exact(initial: int, k: nat)
    requires
        initial - 10 * k >= 0,
    ensures
        spec_quality_at(initial, k) == initial - 10 * k,
    decreases k,
{
    if k > 0 {
        lemma_quality_at_exact(initial, (k - 1) as nat);
    }
}

} // verus!
