//! Background colors and alpha compositing. A malformed background string
//! falls back to white per channel rather than failing; flattening an image
//! with transparency blends each pixel over the background with
//! `out = (src * alpha + bg * (255 - alpha)) / 255`.
use vstd::prelude::*;
use vstd::arithmetic::div_mod::lemma_div_is_ordered;
use vstd::arithmetic::mul::lemma_mul_inequality;

verus! {

/// The value of a hex digit, or -1 when the character is not one.
pub open spec fn spec_hex_digit(c: char) -> int {
    let u = c as int;
    if 48 <= u <= 57 {
        u - 48
    } else if 97 <= u <= 102 {
        u - 87
    } else if 65 <= u <= 70 {
        u - 55
    } else {
        -1
    }
}

/// A color channel from two hex digits; an invalid pair yields 255 (white).
pub open spec fn spec_channel(c1: char, c2: char) -> int {
    if spec_hex_digit(c1) >= 0 && spec_hex_digit(c2) >= 0 {
        16 * spec_hex_digit(c1) + spec_hex_digit(c2)
    } else {
        255
    }
}

/// The string with every leading '#' removed.
pub open spec fn spec_strip_hash(s: Seq<char>) -> Seq<char>
    decreases s.len(),
{
    if s.len() > 0 && s[0] == '#' {
        spec_strip_hash(s.drop_first())
    } else {
        s
    }
}

/// The background color a string denotes: `#RRGGBB` digits, or white when
/// the remainder after the leading hashes is not exactly six characters.
pub open spec fn spec_parse_color(s: Seq<char>) -> (int, int, int) {
    let t = spec_strip_hash(s);
    if t.len() != 6 {
        (255, 255, 255)
    } else {
        (spec_channel(t[0], t[1]), spec_channel(t[2], t[3]), spec_channel(t[4], t[5]))
    }
}

/// The value of one hex digit character, if it is one.
pub fn hex_digit(c: char) -> (v: Option<u8>)
    ensures
        spec_hex_digit(c) >= 0 <==> v is Some,
        v is Some ==> v->0 == spec_hex_digit(c),
{
    let u = c as u32;
    if 48 <= u && u <= 57 {
        Some((u - 48) as u8)
    } else if 97 <= u && u <= 102 {
        Some((u - 87) as u8)
    } else if 65 <= u && u <= 70 {
        Some((u - 55) as u8)
    } else {
        None
    }
}

/// One channel from two hex digit characters, white on an invalid pair.
pub fn channel_value(c1: char, c2: char) -> (r: u8)
    ensures
        r == spec_channel(c1, c2),
{
    match (hex_digit(c1), hex_digit(c2)) {
        (Some(d1), Some(d2)) => 16 * d1 + d2,
        _ => 255,
    }
}

/// Parses a `#RRGGBB` background string into its three channels,
/// falling back to white on malformed input.
pub fn parse_color(color: &str) -> (r: (u8, u8, u8))
    ensures
        ({
            let s = spec_parse_color(color@);
            r.0 == s.0 && r.1 == s.1 && r.2 == s.2
        }),
{
    let len = color.unicode_len();
    let mut i: usize = 0;
    proof {
        assert(color@.skip(0) =~= color@);
    }
    while i < len && color.get_char(i) == '#'
        invariant
            0 <= i <= len,
            len == color@.len(),
            spec_strip_hash(color@) == spec_strip_hash(color@.skip(i as int)),
        decreases len - i,
    {
        proof {
            assert(color@.skip(i as int).drop_first() =~= color@.skip(i as int + 1));
        }
        i = i + 1;
    }
    proof {
        if i < len {
            assert(color@.skip(i as int)[0] == color@[i as int]);
        }
        assert(spec_strip_hash(color@) == color@.skip(i as int));
    }
    if len - i != 6 {
        (255, 255, 255)
    } else {
        let t0 = color.get_char(i);
        let t1 = color.get_char(i + 1);
        let t2 = color.get_char(i + 2);
        let t3 = color.get_char(i + 3);
        let t4 = color.get_char(i + 4);
        let t5 = color.get_char(i + 5);
        (channel_value(t0, t1), channel_value(t2, t3), channel_value(t4, t5))
    }
}

/// One blended channel: the source over the background, alpha in 0..=255.
pub open spec fn spec_blend(src: int, bgc: int, a: int) -> int {
    (src * a + bgc * (255 - a)) / 255
}

/// The blend of two byte channels stays a byte.
proof fn lemma_blend_fits(src: int, bgc: int, a: int)
    requires
        0 <= src <= 255,
        0 <= bgc <= 255,
        0 <= a <= 255,
    ensures
        0 <= src * a + bgc * (255 - a) <= 65025,
        0 <= spec_blend(src, bgc, a) <= 255,
{
    lemma_mul_inequality(src, 255, a);
    lemma_mul_inequality(bgc, 255, 255 - a);
    vstd::arithmetic::mul::lemma_mul_nonnegative(src, a);
    vstd::arithmetic::mul::lemma_mul_nonnegative(bgc, 255 - a);
    lemma_div_is_ordered(src * a + bgc * (255 - a), 65025, 255);
    vstd::arithmetic::div_mod::lemma_div_pos_is_pos(src * a + bgc * (255 - a), 255);
}

/// Pixel `j` of the RGB output is pixel `j` of the RGBA input composited
/// over the background.
pub open spec fn spec_composited_at(
    src: Seq<u8>,
    dst: Seq<u8>,
    bg: (u8, u8, u8),
    j: int,
) -> bool {
    let a = src[4 * j + 3] as int;
    dst[3 * j] == spec_blend(src[4 * j] as int, bg.0 as int, a) && dst[3 * j + 1] == spec_blend(
        src[4 * j + 1] as int,
        bg.1 as int,
        a,
    ) && dst[3 * j + 2] == spec_blend(src[4 * j + 2] as int, bg.2 as int, a)
}

/// Flattens an RGBA byte buffer over a solid background, producing an RGB
/// buffer of the same pixel count with every pixel composited.
pub fn composite_over_background(rgba: &Vec<u8>, bg: (u8, u8, u8)) -> (rgb: Vec<u8>)
    requires
        rgba@.len() % 4 == 0,
    ensures
        rgb@.len() == rgba@.len() / 4 * 3,
        forall|j: int|
            0 <= j < rgba@.len() / 4 ==> #[trigger] spec_composited_at(rgba@, rgb@, bg, j),
{
    let n = rgba.len() / 4;
    let mut rgb: Vec<u8> = Vec::new();
    let mut i: usize = 0;
    while i < n
        invariant
            0 <= i <= n,
            n == rgba@.len() / 4,
            rgba@.len() % 4 == 0,
            rgba@.len() <= usize::MAX,
            rgb@.len() == 3 * i,
            forall|j: int| 0 <= j < i ==> #[trigger] spec_composited_at(rgba@, rgb@, bg, j),
        decreases n - i,
    {
        let a = rgba[4 * i + 3] as u32;
        let sr = rgba[4 * i] as u32;
        let sg = rgba[4 * i + 1] as u32;
        let sb = rgba[4 * i + 2] as u32;
        proof {
            lemma_blend_fits(sr as int, bg.0 as int, a as int);
            lemma_blend_fits(sg as int, bg.1 as int, a as int);
            lemma_blend_fits(sb as int, bg.2 as int, a as int);
        }
        let inv = 255 - a;
        let r = ((sr * a + (bg.0 as u32) * inv) / 255) as u8;
        let g = ((sg * a + (bg.1 as u32) * inv) / 255) as u8;
        let b = ((sb * a + (bg.2 as u32) * inv) / 255) as u8;
        let ghost prev = rgb@;
        rgb.push(r);
        rgb.push(g);
        rgb.push(b);
        proof {
            assert(rgb@ =~= prev + seq![r, g, b]);
            assert forall|j: int| 0 <= j < i + 1 implies #[trigger] spec_composited_at(
                rgba@,
                rgb@,
                bg,
                j,
            ) by {
                if j < i {
                    assert(spec_composited_at(rgba@, prev, bg, j));
                    assert(rgb@[3 * j] == prev[3 * j]);
                    assert(rgb@[3 * j + 1] == prev[3 * j + 1]);
                    assert(rgb@[3 * j + 2] == prev[3 * j + 2]);
                } else {
                    assert(rgb@[3 * j] == r);
                    assert(rgb@[3 * j + 1] == g);
                    assert(rgb@[3 * j + 2] == b);
                }
            }
        }
        i = i + 1;
    }
    rgb
}

} // verus!
