//! How one pixel is drawn as a terminal cell: in true color, as an ASCII
//! glyph, or as a shade block, optionally dithered.
use vstd::prelude::*;

use rand::rngs::ThreadRng;
use rand::Rng;

use crate::decimal::{decimal, u8_to_decimal};

verus! {

#[verifier::external_type_specification]
#[verifier::external_body]
pub struct ExThreadRng(ThreadRng);

/// One pixel of a frame, by channel.
#[derive(Debug, Clone, Copy, PartialEq, Eq, Structural)]
pub struct Pixel {
    pub r: u8,
    pub g: u8,
    pub b: u8,
    pub a: u8,
}

/// The gray level of a pixel: the mean of its red, green and blue channels,
/// rounded down.
pub open spec fn gray(p: Pixel) -> int {
    (p.r + p.g + p.b) / 3
}

/// The gray level of `pixel`.
pub fn get_pixel_bw(pixel: &Pixel) -> (bw: u8)
    ensures
        bw == gray(*pixel),
{
    let sum: u16 = pixel.r as u16 + pixel.b as u16 + pixel.g as u16;
    (sum / 3) as u8
}

/// Whether a gray level lies far enough from black and white to be dithered
/// by `amount` without leaving the range of `u8`.
pub open spec fn in_dither_band(bw: int, amount: int) -> bool {
    bw < 255 - amount && bw > amount
}

/// A random number from `0` to `max`, both included.
///
/// Trusted: calls `Rng::gen_range(0..=max)` of rand on a `ThreadRng`. Rand
/// documents that the result lies in the range and that an empty range
/// panics, which `0..=max` never is (a failure of the operating system's
/// entropy source while reseeding is not ruled out). Which number comes out
/// is chance, so nothing more is stated.
#[verifier::external_body]
fn random_up_to(rng: &mut ThreadRng, max: u8) -> (r: u8)
    ensures
        r <= max,
{
    rng.gen_range(0..=max)
}

/// The gray level `bw` shifted by `offset - amount`, for an offset from
/// `0` to `2 * amount`.
pub fn dithered(bw: u8, amount: u8, offset: u8) -> (r: u8)
    requires
        in_dither_band(bw as int, amount as int),
        offset <= 2 * amount,
    ensures
        r == bw - amount + offset,
{
    let lowered = bw - amount;
    lowered + offset
}

/// The width `2 * amount` of the range from which a dithering offset is
/// drawn.
pub fn dither_span(amount: u8) -> (m: u8)
    requires
        amount <= 127,
    ensures
        m == 2 * amount,
{
    amount * 2
}

/// The gray level of `pixel`, moved by a random amount of at most
/// `dither_ammount` either way when it lies inside the dithering band, and
/// unchanged otherwise.
pub fn get_dither(pixel: &Pixel, dither_ammount: u8, rng: &mut ThreadRng) -> (r: u8)
    ensures
        in_dither_band(gray(*pixel), dither_ammount as int) ==> gray(*pixel) - dither_ammount <= r
            <= gray(*pixel) + dither_ammount,
        !in_dither_band(gray(*pixel), dither_ammount as int) ==> r == gray(*pixel),
        !in_dither_band(gray(*pixel), dither_ammount as int) ==> *final(rng) == *old(rng),
{
    let pixel_bw = get_pixel_bw(pixel);
    if pixel_bw < 255 - dither_ammount && pixel_bw > dither_ammount {
        let offset = random_up_to(rng, dither_span(dither_ammount));
        dithered(pixel_bw, dither_ammount, offset)
    } else {
        pixel_bw
    }
}

/// The escape sequence that paints one cell in the pixel's color.
pub open spec fn background_text(p: Pixel) -> Seq<char> {
    "\x1B[48;2;"@ + decimal(p.r as nat) + ";"@ + decimal(p.g as nat) + ";"@ + decimal(
        p.b as nat,
    ) + "m "@
}

/// A cell painted in the color of `pixel`.
pub fn background_cell(pixel: &Pixel) -> (s: String)
    ensures
        s@ == background_text(*pixel),
{
    let mut s = String::from_str("\x1B[48;2;");
    s.append(u8_to_decimal(pixel.r).as_str());
    s.append(";");
    s.append(u8_to_decimal(pixel.g).as_str());
    s.append(";");
    s.append(u8_to_decimal(pixel.b).as_str());
    s.append("m ");
    s
}

/// The true-color cell for `pixel`: a plain blank when the pixel drawn
/// before it is the same (the color is already set), else a cell painted
/// in its color.
pub open spec fn true_color_text(p: Pixel, old: Pixel) -> Seq<char> {
    if old == p {
        " "@
    } else {
        background_text(p)
    }
}

/// The true-color cell for `pixel`, drawn after `old_pixel`.
pub fn true_color(pixel: &Pixel, old_pixel: &Pixel) -> (s: String)
    ensures
        s@ == true_color_text(*pixel, *old_pixel),
{
    if *old_pixel == *pixel {
        String::from_str(" ")
    } else {
        background_cell(pixel)
    }
}

/// The position of a gray level on the ASCII ramp, from 0 (blank) to 7.
pub open spec fn ascii_level(bw: u8) -> int {
    if bw <= 15 {
        0
    } else if bw <= 42 {
        1
    } else if bw <= 84 {
        2
    } else if bw <= 126 {
        3
    } else if bw <= 168 {
        4
    } else if bw <= 210 {
        5
    } else if bw <= 252 {
        6
    } else {
        7
    }
}

/// The ASCII glyphs from the lightest to the densest.
pub open spec fn ascii_ramp() -> Seq<char> {
    seq![' ', '.', ',', '-', '=', '+', '*', '#']
}

/// The character that the ASCII renderer uses for a gray level.
pub open spec fn ascii_char(bw: u8) -> char {
    ascii_ramp()[ascii_level(bw)]
}

/// Maps a gray level to one ASCII character, brighter levels to denser glyphs.
pub fn ascii(pixel_bw: u8) -> (s: String)
    ensures
        s@ == seq![ascii_char(pixel_bw)],
{
    let lit: &str = if pixel_bw <= 15 {
        proof {
            reveal_strlit(" ");
        }
        " "
    } else if pixel_bw <= 42 {
        proof {
            reveal_strlit(".");
        }
        "."
    } else if pixel_bw <= 84 {
        proof {
            reveal_strlit(",");
        }
        ","
    } else if pixel_bw <= 126 {
        proof {
            reveal_strlit("-");
        }
        "-"
    } else if pixel_bw <= 168 {
        proof {
            reveal_strlit("=");
        }
        "="
    } else if pixel_bw <= 210 {
        proof {
            reveal_strlit("+");
        }
        "+"
    } else if pixel_bw <= 252 {
        proof {
            reveal_strlit("*");
        }
        "*"
    } else {
        proof {
            reveal_strlit("#");
        }
        "#"
    };
    String::from_str(lit)
}

/// The shade blocks from the lightest to the densest.
pub open spec fn block_ramp() -> Seq<char> {
    seq![' ', '░', '▒', '▓', '█']
}

/// The position of a gray level on the block ramp, from 0 (blank) to 4.
pub open spec fn block_level(bw: u8) -> int {
    if bw <= 42 {
        0
    } else if bw <= 85 {
        1
    } else if bw <= 128 {
        2
    } else if bw <= 170 {
        3
    } else {
        4
    }
}

/// The character that the block renderer uses for a gray level.
pub open spec fn block_char(bw: u8) -> char {
    block_ramp()[block_level(bw)]
}

/// The shade block for `level` on the block ramp.
fn block_glyph(level: u8) -> (s: String)
    requires
        level < 5,
    ensures
        s@ == seq![block_ramp()[level as int]],
{
    let lit: &str = if level == 0 {
        proof {
            reveal_strlit(" ");
        }
        " "
    } else if level == 1 {
        proof {
            reveal_strlit("░");
        }
        "░"
    } else if level == 2 {
        proof {
            reveal_strlit("▒");
        }
        "▒"
    } else if level == 3 {
        proof {
            reveal_strlit("▓");
        }
        "▓"
    } else {
        proof {
            reveal_strlit("█");
        }
        "█"
    };
    String::from_str(lit)
}

/// Maps a gray level to one shade block, brighter levels to denser blocks.
pub fn block(pixel_bw: u8) -> (s: String)
    ensures
        s@ == seq![block_char(pixel_bw)],
{
    let level: u8 = if pixel_bw <= 42 {
        0
    } else if pixel_bw <= 85 {
        1
    } else if pixel_bw <= 128 {
        2
    } else if pixel_bw <= 170 {
        3
    } else {
        4
    };
    block_glyph(level)
}

/// The position of a gray level on the block ramp in the player's plain
/// block mode, whose densest block starts at 201.
pub open spec fn plain_block_level(bw: u8) -> int {
    if bw <= 42 {
        0
    } else if bw <= 85 {
        1
    } else if bw <= 128 {
        2
    } else if bw <= 200 {
        3
    } else {
        4
    }
}

/// The shade block of the player's plain block mode for a gray level.
pub fn plain_block(pixel_bw: u8) -> (s: String)
    ensures
        s@ == seq![block_ramp()[plain_block_level(pixel_bw)]],
{
    let level: u8 = if pixel_bw <= 42 {
        0
    } else if pixel_bw <= 85 {
        1
    } else if pixel_bw <= 128 {
        2
    } else if pixel_bw <= 200 {
        3
    } else {
        4
    };
    block_glyph(level)
}

/// Whether `v` is a gray level that dithering `p` by `amount` can give.
pub open spec fn dither_outcome(p: Pixel, amount: int, v: u8) -> bool {
    if in_dither_band(gray(p), amount) {
        gray(p) - amount <= v <= gray(p) + amount
    } else {
        v == gray(p)
    }
}

/// The player's cell for `pixel` in color scheme `color`: 0 true color,
/// 1 ASCII, 2 plain blocks, 3 blocks dithered by 40, any other ASCII
/// dithered by 20.
///
/// This numbering, and the fixed dither amounts, are those of the player's
/// frame loop. They are not the numbered modes of the usage text (true
/// color, limited color, ASCII, dithered ASCII, block, dithered block), which
/// nothing in the player renders.
pub fn render_cell(color: u32, pixel: &Pixel, rng: &mut ThreadRng) -> (s: String)
    ensures
        color == 0 ==> s@ == background_text(*pixel),
        color == 1 ==> s@ == seq![ascii_char(gray(*pixel) as u8)],
        color == 2 ==> s@ == seq![block_ramp()[plain_block_level(gray(*pixel) as u8)]],
        color == 3 ==> exists|v: u8| dither_outcome(*pixel, 40, v) && s@ == seq![block_char(v)],
        color > 3 ==> exists|v: u8| dither_outcome(*pixel, 20, v) && s@ == seq![ascii_char(v)],
        color < 3 ==> *final(rng) == *old(rng),
        color == 3 && !in_dither_band(gray(*pixel), 40) ==> *final(rng) == *old(rng),
        color > 3 && !in_dither_band(gray(*pixel), 20) ==> *final(rng) == *old(rng),
{
    if color == 0 {
        background_cell(pixel)
    } else if color == 1 {
        ascii(get_pixel_bw(pixel))
    } else if color == 2 {
        plain_block(get_pixel_bw(pixel))
    } else if color == 3 {
        let v = get_dither(pixel, 40, rng);
        let s = block(v);
        assert(dither_outcome(*pixel, 40, v));
        s
    } else {
        let v = get_dither(pixel, 20, rng);
        let s = ascii(v);
        assert(dither_outcome(*pixel, 20, v));
        s
    }
}

/// A pixel drawn after an identical pixel (all four channels equal) is a
/// plain blank; a pixel that differs from the one before it in any channel
/// sets the background to its own red, green and blue, written in decimal.
pub proof fn lemma_true_color_cells(p: Pixel, old: Pixel)
    ensures
        p.r == old.r && p.g == old.g && p.b == old.b && p.a == old.a ==> true_color_text(p, old)
            == " "@,
        p.r != old.r || p.g != old.g || p.b != old.b || p.a != old.a ==> true_color_text(p, old)
            == "\x1B[48;2;"@ + decimal(p.r as nat) + ";"@ + decimal(p.g as nat) + ";"@ + decimal(
            p.b as nat,
        ) + "m "@,
{
}

/// A brighter gray level never gets a lighter ASCII glyph, nor a lighter
/// shade block, than a darker one.
pub proof fn lemma_ramps_monotone(a: u8, b: u8)
    requires
        a <= b,
    ensures
        ascii_level(a) <= ascii_level(b),
        block_level(a) <= block_level(b),
        plain_block_level(a) <= plain_block_level(b),
{
}

/// The gray level of a pixel lies between its darkest and brightest color
/// channel, and a pixel whose color channels agree has that level.
pub proof fn lemma_gray_bounds(p: Pixel)
    ensures
        gray(p) >= p.r || gray(p) >= p.g || gray(p) >= p.b,
        gray(p) <= p.r || gray(p) <= p.g || gray(p) <= p.b,
        0 <= gray(p) <= 255,
        p.r == p.g == p.b ==> gray(p) == p.r,
{
}

} // verus!
