//! Alignment of a user mask with its layer.
//!
//! A mask has bounds of its own in canvas coordinates. Each layer pixel takes
//! the mask sample at the same canvas position, or the mask's default fill
//! where that position lies outside the mask.

use vstd::prelude::*;
use crate::model::PsdMaskInfo;

verus! {

/// The length of `lo..hi`, or 0 where `hi <= lo`.
pub open spec fn span(lo: i32, hi: i32) -> int {
    if hi as int - lo as int > 0 { hi as int - lo as int } else { 0 }
}

/// Whether the canvas position `(gx, gy)` lies inside the mask's bounds.
pub open spec fn in_mask(m: PsdMaskInfo, gx: int, gy: int) -> bool {
    m.top as int <= gy < m.bottom as int && m.left as int <= gx < m.right as int
}

/// The index in the mask plane of the canvas position `(gx, gy)`.
pub open spec fn mask_index(m: PsdMaskInfo, gx: int, gy: int) -> int {
    (gy - m.top) * span(m.left, m.right) + (gx - m.left)
}

/// The mask value at canvas position `(gx, gy)`: the plane sample there inside
/// the mask's bounds, the default fill outside.
pub open spec fn mask_value(m: PsdMaskInfo, plane: Seq<u8>, gx: int, gy: int) -> u8 {
    if in_mask(m, gx, gy) {
        let k = mask_index(m, gx, gy);
        if 0 <= k < plane.len() { plane[k] } else { 0 }
    } else {
        m.default_color
    }
}

/// `alpha` scaled by a mask value: `alpha * v / 255`, rounded down.
pub open spec fn scaled(alpha: u8, v: u8) -> u8 {
    (alpha as int * v as int / 255) as u8
}

/// Every position inside the mask's bounds has its index inside a plane of
/// `span(left, right) * span(top, bottom)` samples.
pub proof fn lemma_mask_index_in_plane(m: PsdMaskInfo, gx: int, gy: int)
    requires
        in_mask(m, gx, gy),
    ensures
        0 <= mask_index(m, gx, gy) < span(m.left, m.right) * span(m.top, m.bottom),
{
    let w = span(m.left, m.right);
    let h = span(m.top, m.bottom);
    let dy = gy - m.top;
    let dx = gx - m.left;
    assert(0 <= dy < h && 0 <= dx < w);
    assert(dy * w + dx < h * w) by (nonlinear_arith)
        requires
            0 <= dy < h,
            0 <= dx < w,
    ;
    assert(0 <= dy * w) by (nonlinear_arith)
        requires
            0 <= dy,
            0 <= w,
    ;
    assert(h * w == w * h) by (nonlinear_arith);
}

/// The mask value at canvas position `(gx, gy)`, for a plane of
/// `span(left, right) * span(top, bottom)` samples.
pub fn mask_sample(m: &PsdMaskInfo, plane: &[u8], gx: i64, gy: i64) -> (r: u8)
    requires
        plane@.len() == span(m.left, m.right) * span(m.top, m.bottom),
    ensures
        r == mask_value(*m, plane@, gx as int, gy as int),
{
    if m.top as i64 <= gy && gy < m.bottom as i64 && m.left as i64 <= gx && gx < m.right as i64 {
        proof {
            lemma_mask_index_in_plane(*m, gx as int, gy as int);
        }
        let _n = plane.len();
        let w = (m.right as i64 - m.left as i64) as u64;
        let dy = (gy - m.top as i64) as u64;
        let dx = (gx - m.left as i64) as u64;
        assert(dy as int * w as int + dx as int == mask_index(*m, gx as int, gy as int));
        let k = (dy * w + dx) as usize;
        plane[k]
    } else {
        m.default_color
    }
}

} // verus!
