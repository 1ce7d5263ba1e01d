//! Numeric conversion of CMYK and indexed samples to RGB.

use vstd::prelude::*;

verus! {

/// One RGB component from a CMYK ink and the key: `255 * (1 - x/255) * (1 - k/255)`,
/// rounded down.
pub open spec fn cmyk_component(x: u8, k: u8) -> int {
    (255 - x as int) * (255 - k as int) / 255
}

/// Converts a CMYK sample to RGB.
pub fn cmyk_to_rgb(c: u8, m: u8, y: u8, k: u8) -> (r: (u8, u8, u8))
    ensures
        r.0 as int == cmyk_component(c, k),
        r.1 as int == cmyk_component(m, k),
        r.2 as int == cmyk_component(y, k),
{
    let kk = 255 - k as u32;
    proof {
        assert((255 - c as int) * (255 - k as int) <= 255 * 255) by (nonlinear_arith)
            requires
                0 <= 255 - c as int <= 255,
                0 <= 255 - k as int <= 255,
        ;
        assert((255 - m as int) * (255 - k as int) <= 255 * 255) by (nonlinear_arith)
            requires
                0 <= 255 - m as int <= 255,
                0 <= 255 - k as int <= 255,
        ;
        assert((255 - y as int) * (255 - k as int) <= 255 * 255) by (nonlinear_arith)
            requires
                0 <= 255 - y as int <= 255,
                0 <= 255 - k as int <= 255,
        ;
    }
    let r = (255 - c as u32) * kk / 255;
    let g = (255 - m as u32) * kk / 255;
    let b = (255 - y as u32) * kk / 255;
    (r as u8, g as u8, b as u8)
}

/// The palette entry `at`, or 0 where the palette is too short to hold it.
pub open spec fn palette_at(palette: Seq<u8>, at: int) -> u8 {
    if 0 <= at < palette.len() { palette[at] } else { 0 }
}

/// The RGB colour of palette index `v`: one byte from each of the three
/// consecutive 256-byte planes.
pub open spec fn indexed_rgb(palette: Seq<u8>, v: u8) -> (u8, u8, u8) {
    (palette_at(palette, v as int), palette_at(palette, v + 256), palette_at(palette, v + 512))
}

fn palette_byte(palette: &[u8], at: usize) -> (r: u8)
    ensures
        r == palette_at(palette@, at as int),
{
    if at < palette.len() { palette[at] } else { 0 }
}

/// Looks up palette index `v`.
pub fn indexed_to_rgb(palette: &[u8], v: u8) -> (r: (u8, u8, u8))
    ensures
        r == indexed_rgb(palette@, v),
{
    (
        palette_byte(palette, v as usize),
        palette_byte(palette, v as usize + 256),
        palette_byte(palette, v as usize + 512),
    )
}

} // verus!
