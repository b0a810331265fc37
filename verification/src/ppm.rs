//! The finished image as plain-text PPM ("P3"), and the order of its pixels.
//!
//! The text is the line `P3`, a line with the width and the height, the line
//! `255`, and then one line per pixel with its red, green and blue levels.
//! Pixels run row by row, the top row first, each row from left to right.

use crate::double::Double;
use vstd::prelude::*;

verus! {

/// The levels of one pixel, as they are written out.
#[derive(Copy, Clone, Debug, PartialEq, Eq, Structural)]
pub struct Pixel {
    pub r: u32,
    pub g: u32,
    pub b: u32,
}

/// The decimal digits of `n` in ASCII, without leading zeros.
pub open spec fn decimal(n: nat) -> Seq<u8>
    decreases n,
{
    if n < 10 {
        seq![(48 + n) as u8]
    } else {
        decimal(n / 10).push((48 + n % 10) as u8)
    }
}

/// The three lines that open the file for an image of `nx` columns and
/// `ny` rows: `P3`, the two sizes, and the highest level, 255.
pub open spec fn header_text(nx: u32, ny: u32) -> Seq<u8> {
    seq![80u8, 51u8, 10u8] + decimal(nx as nat) + seq![32u8] + decimal(ny as nat) + seq![
        10u8,
        50u8,
        53u8,
        53u8,
        10u8,
    ]
}

/// The line of one pixel: its three levels with a space between them.
pub open spec fn pixel_text(pixel: Pixel) -> Seq<u8> {
    decimal(pixel.r as nat) + seq![32u8] + decimal(pixel.g as nat) + seq![32u8] + decimal(
        pixel.b as nat,
    ) + seq![10u8]
}

/// The lines of the first `n` pixels, one after the other.
pub open spec fn body_text(pixels: Seq<Pixel>, n: nat) -> Seq<u8>
    decreases n,
{
    if n == 0 {
        Seq::<u8>::empty()
    } else {
        body_text(pixels, (n - 1) as nat) + pixel_text(pixels[n - 1])
    }
}

/// The whole file: the header and then the pixels, in the order given.
pub open spec fn image_text(nx: u32, ny: u32, pixels: Seq<Pixel>) -> Seq<u8> {
    header_text(nx, ny) + body_text(pixels, pixels.len())
}

/// The column and the row of the `k`-th pixel of the file, rows counted from
/// the bottom of the image: the file starts with the top row, `ny - 1`.
pub open spec fn scan_spec(nx: u32, ny: u32, k: int) -> (int, int) {
    (k % (nx as int), ny - 1 - k / (nx as int))
}

/// The place in the file of the pixel in column `i` of row `j`.
pub open spec fn place_spec(nx: u32, ny: u32, i: int, j: int) -> int {
    (ny - 1 - j) * nx + i
}

/// Appends the decimal digits of `n` to `out`.
pub fn push_decimal(out: &mut Vec<u8>, n: u32)
    ensures
        final(out)@ == old(out)@ + decimal(n as nat),
    decreases n,
{
    if n >= 10 {
        push_decimal(out, n / 10);
    }
    let digit: u8 = 48 + (n % 10) as u8;
    out.push(digit);
    proof {
        assert(final(out)@ =~= old(out)@ + decimal(n as nat));
    }
}

/// Appends the header for an image of `nx` columns and `ny` rows to `out`.
pub fn push_header(out: &mut Vec<u8>, nx: u32, ny: u32)
    ensures
        final(out)@ == old(out)@ + header_text(nx, ny),
{
    out.push(80u8);
    out.push(51u8);
    out.push(10u8);
    push_decimal(out, nx);
    out.push(32u8);
    push_decimal(out, ny);
    out.push(10u8);
    out.push(50u8);
    out.push(53u8);
    out.push(53u8);
    out.push(10u8);
    proof {
        assert(final(out)@ =~= old(out)@ + header_text(nx, ny));
    }
}

/// Appends the line of one pixel to `out`.
pub fn push_pixel(out: &mut Vec<u8>, pixel: &Pixel)
    ensures
        final(out)@ == old(out)@ + pixel_text(*pixel),
{
    push_decimal(out, pixel.r);
    out.push(32u8);
    push_decimal(out, pixel.g);
    out.push(32u8);
    push_decimal(out, pixel.b);
    out.push(10u8);
    proof {
        assert(final(out)@ =~= old(out)@ + pixel_text(*pixel));
    }
}

/// The header for an image of `nx` columns and `ny` rows.
pub fn header(nx: u32, ny: u32) -> (text: Vec<u8>)
    ensures
        text@ == header_text(nx, ny),
{
    let mut text: Vec<u8> = Vec::new();
    push_header(&mut text, nx, ny);
    proof {
        assert(text@ =~= header_text(nx, ny));
    }
    text
}

/// The line of one pixel.
pub fn pixel_line(pixel: &Pixel) -> (text: Vec<u8>)
    ensures
        text@ == pixel_text(*pixel),
{
    let mut text: Vec<u8> = Vec::new();
    push_pixel(&mut text, pixel);
    proof {
        assert(text@ =~= pixel_text(*pixel));
    }
    text
}

/// The whole file for an image of `nx` columns and `ny` rows whose pixels
/// are given in the order of the file.
pub fn encode(nx: u32, ny: u32, pixels: &Vec<Pixel>) -> (text: Vec<u8>)
    ensures
        text@ == image_text(nx, ny, pixels@),
{
    let mut text: Vec<u8> = Vec::new();
    push_header(&mut text, nx, ny);
    let mut k: usize = 0;
    while k < pixels.len()
        invariant
            0 <= k <= pixels@.len(),
            text@ =~= header_text(nx, ny) + body_text(pixels@, k as nat),
        decreases pixels@.len() - k,
    {
        push_pixel(&mut text, &pixels[k]);
        k = k + 1;
    }
    text
}

/// The level that a channel is written with: `scaled` is the channel times
/// 255.99, and the level is that number cut to a whole one. A negative
/// number or a NaN gives 0.
pub fn quantize(scaled: Double) -> (level: u32)
    ensures
        level == scaled.truncated(),
{
    scaled.truncate()
}

/// The pattern of `256.0`.
pub const LEVELS_BITS: u64 = 0x4070_0000_0000_0000;

/// Levels stay within 0 to 255 as long as the scaled channel is below 256,
/// as it is for every channel that is at most 1.
pub proof fn lemma_levels_fit(scaled: Double)
    requires
        scaled.lt_spec(Double { bits: LEVELS_BITS }),
    ensures
        0 <= scaled.truncated() <= 255,
{
    vstd::arithmetic::power2::lemma2_to64();
    assert(LEVELS_BITS == (crate::double::EXPONENT_BIAS + 8) * crate::double::HIDDEN_BIT);
    crate::double::lemma_truncated_below_power(scaled, 8);
    if !scaled.is_nan_spec() && !scaled.is_negative() {
        crate::double::lemma_truncated_nonnegative(scaled);
    }
}

/// The pixel of three channels, each already multiplied by 255.99.
pub fn quantize_pixel(r: Double, g: Double, b: Double) -> (pixel: Pixel)
    ensures
        pixel.r == r.truncated(),
        pixel.g == g.truncated(),
        pixel.b == b.truncated(),
{
    Pixel { r: quantize(r), g: quantize(g), b: quantize(b) }
}

/// The column and the row (counted from the bottom) of the `k`-th pixel of
/// the file, for `k` below `nx * ny`; `None` beyond the last pixel.
pub fn scan_position(nx: u32, ny: u32, k: u64) -> (at: Option<(u32, u32)>)
    ensures
        at.is_some() == (k < nx * ny),
        at matches Some(cell) ==> (cell.0 as int, cell.1 as int) == scan_spec(nx, ny, k as int)
            && cell.0 < nx && cell.1 < ny,
{
    assert(nx * ny <= 0xffff_ffff * 0xffff_ffff) by (nonlinear_arith)
        requires
            0 <= nx <= 0xffff_ffff,
            0 <= ny <= 0xffff_ffff,
    ;
    let total: u64 = (nx as u64) * (ny as u64);
    if k >= total {
        return None;
    }
    assert(nx > 0 && ny > 0) by (nonlinear_arith)
        requires
            k < nx * ny,
            k >= 0,
    ;
    let row_from_top: u64 = k / (nx as u64);
    let column: u64 = k % (nx as u64);
    assert(row_from_top < ny) by (nonlinear_arith)
        requires
            row_from_top == k as int / nx as int,
            k < nx * ny,
            nx > 0,
    ;
    Some((column as u32, (ny as u64 - 1 - row_from_top) as u32))
}

/// The order of the file is row-major, top row first: every pixel of the
/// image has exactly one place in the file, `place_spec`, and `scan_spec`
/// finds the pixel of a place.
pub proof fn lemma_scan_covers(nx: u32, ny: u32, i: int, j: int)
    requires
        0 <= i < nx,
        0 <= j < ny,
    ensures
        0 <= place_spec(nx, ny, i, j) < nx * ny,
        scan_spec(nx, ny, place_spec(nx, ny, i, j)) == (i, j),
{
    let w = nx as int;
    let row = ny - 1 - j;
    let k = row * w + i;
    assert(0 <= k < nx * ny) by (nonlinear_arith)
        requires
            k == row * w + i,
            0 <= i < w,
            0 <= row < ny,
            w == nx,
    ;
    vstd::arithmetic::div_mod::lemma_fundamental_div_mod_converse(k, w, row, i);
}

/// Every place of the file holds a pixel of the image, and no two places
/// hold the same one.
pub proof fn lemma_scan_places(nx: u32, ny: u32, k: int)
    requires
        0 <= k < nx * ny,
    ensures
        0 <= scan_spec(nx, ny, k).0 < nx,
        0 <= scan_spec(nx, ny, k).1 < ny,
        place_spec(nx, ny, scan_spec(nx, ny, k).0, scan_spec(nx, ny, k).1) == k,
{
    let w = nx as int;
    assert(w > 0) by (nonlinear_arith)
        requires
            0 <= k < nx * ny,
            w == nx,
    ;
    vstd::arithmetic::div_mod::lemma_fundamental_div_mod(k, w);
    let q = k / w;
    let r = k % w;
    assert(0 <= q < ny) by (nonlinear_arith)
        requires
            k == w * q + r,
            0 <= r < w,
            0 <= k < w * ny,
    ;
    assert(q * w == w * q) by (nonlinear_arith);
}

/// The file runs down the image and along each row: of two places the later
/// one holds a pixel of a lower row, or of the same row further right.
pub proof fn lemma_scan_order(nx: u32, ny: u32, k: int, l: int)
    requires
        0 <= k < l < nx * ny,
    ensures
        scan_spec(nx, ny, l).1 < scan_spec(nx, ny, k).1 || (scan_spec(nx, ny, l).1 == scan_spec(
            nx,
            ny,
            k,
        ).1 && scan_spec(nx, ny, k).0 < scan_spec(nx, ny, l).0),
{
    let w = nx as int;
    assert(w > 0) by (nonlinear_arith)
        requires
            0 <= l < nx * ny,
            w == nx,
    ;
    vstd::arithmetic::div_mod::lemma_fundamental_div_mod(k, w);
    vstd::arithmetic::div_mod::lemma_fundamental_div_mod(l, w);
    let qk = k / w;
    let ql = l / w;
    let rk = k % w;
    let rl = l % w;
    assert(qk <= ql && (qk == ql ==> rk < rl)) by (nonlinear_arith)
        requires
            k == w * qk + rk,
            l == w * ql + rl,
            0 <= rk < w,
            0 <= rl < w,
            k < l,
    ;
}

} // verus!
