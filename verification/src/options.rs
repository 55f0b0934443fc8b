//! Option bundles for a batch run and the per-file record handed in by the
//! caller. All fields are plain values; the closed enumerations (resize mode,
//! crop aspect, output format) are carried as strings and interpreted by spec
//! functions here.
use vstd::prelude::*;

verus! {

/// How to resize an image: `"fixed"`, `"longest-side"` or `"upscale"`;
/// any other string means "leave the size alone".
#[derive(Debug, Clone)]
pub struct ResizeOptions {
    pub mode: String,
    pub width: Option<u32>,
    pub height: Option<u32>,
    pub longest_side: Option<u32>,
    pub keep_aspect: bool,
    pub upscale_multiplier: Option<u32>,
}

/// A crop request: either an explicit rectangle (`aspect == "free"`) or a
/// centered rectangle of a fixed aspect ratio (`"1:1"`, `"4:3"`, `"16:9"`).
#[derive(Debug, Clone)]
pub struct CropOptions {
    pub enabled: bool,
    pub aspect: String,
    pub x: u32,
    pub y: u32,
    pub width: u32,
    pub height: u32,
}

/// Rotation in degrees; only 90, 180 and 270 rotate, anything else is a no-op.
#[derive(Debug, Clone)]
pub struct RotateOptions {
    pub degrees: i32,
}

/// Output format ("jpeg" | "png" | "webp"), encoder quality in 0..=100,
/// an optional target size in kilobytes, and an optional background color
/// (hex `#RRGGBB`) used when an image with transparency is flattened.
#[derive(Debug, Clone)]
pub struct OutputOptions {
    pub format: String,
    pub quality: u8,
    pub target_size_kb: Option<u32>,
    pub background: Option<String>,
}

/// Miscellaneous switches for a run.
#[derive(Debug, Clone)]
pub struct ProcessFlags {
    pub strip_metadata: bool,
    pub overwrite: bool,
    pub recursive: bool,
}

/// How output files are named: keep the original stem (with prefix/suffix),
/// or number the outputs from `start_index`, zero-padded to `pad` digits.
#[derive(Debug, Clone)]
pub struct NamingOptions {
    pub prefix: String,
    pub suffix: String,
    pub start_index: u32,
    pub pad: u32,
    pub keep_original: bool,
}

/// Everything a batch run needs, bundled.
#[derive(Debug, Clone)]
pub struct BatchOptions {
    pub resize: ResizeOptions,
    pub crop: CropOptions,
    pub rotate: RotateOptions,
    pub output: OutputOptions,
    pub flags: ProcessFlags,
    pub naming: NamingOptions,
}

/// A source file as reported by the initial scan. `width` and `height` are
/// informational hints; the loader re-reads the actual dimensions.
#[derive(Debug, Clone)]
pub struct ImageFileInfo {
    pub path: String,
    pub name: String,
    pub width: u32,
    pub height: u32,
}

/// A scanned file with its on-disk size and reported format, as handed to
/// the caller by the directory scan.
#[derive(Debug, Clone)]
pub struct FileInfo {
    pub id: String,
    pub path: String,
    pub name: String,
    pub size: u64,
    pub width: u32,
    pub height: u32,
    pub format: String,
}

/// True of the format strings that select the JPEG encoder.
pub open spec fn spec_format_is_jpeg(format: Seq<char>) -> bool {
    format == "jpeg"@ || format == "jpg"@
}

/// True of the format strings that select the PNG encoder.
pub open spec fn spec_format_is_png(format: Seq<char>) -> bool {
    format == "png"@
}

/// True of the format strings that select the WebP encoder.
pub open spec fn spec_format_is_webp(format: Seq<char>) -> bool {
    format == "webp"@
}

/// The extensions the scanner accepts, lowercased.
pub open spec fn spec_supported_extension(ext: Seq<char>) -> bool {
    ext == "jpg"@ || ext == "jpeg"@ || ext == "png"@ || ext == "webp"@ || ext == "bmp"@ || ext
        == "gif"@
}

/// Whether a lowercased file extension names an image format the batch
/// accepts.
pub fn is_supported_extension(ext: &String) -> (r: bool)
    ensures
        r == spec_supported_extension(ext@),
{
    str_is(ext, "jpg") || str_is(ext, "jpeg") || str_is(ext, "png") || str_is(ext, "webp")
        || str_is(ext, "bmp") || str_is(ext, "gif")
}

/// Compares a string against a literal; the building block for interpreting
/// the closed string enumerations above.
pub fn str_is(s: &String, lit: &str) -> (r: bool)
    ensures
        r == (s@ == lit@),
{
    let owned: String = lit.to_owned();
    *s == owned
}

} // verus!
