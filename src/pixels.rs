//! Decoding of a layer's channel planes and their assembly into RGBA.

use vstd::prelude::*;
use crate::channel::channel_plane;
use crate::color::{cmyk_component, cmyk_to_rgb, indexed_rgb, indexed_to_rgb};
use crate::lab::{lab_rgb, lab_to_rgb};
use crate::cursor::PsdParser;
use crate::layers::{LayerRecord, RecordView};
use crate::mask::{in_mask, mask_index, mask_sample, mask_value, scaled, span};
use crate::model::{ColorMode, PsdError};

verus! {

/// Width of a layer: `right - left`, or 0 for inverted bounds.
pub open spec fn rec_width(r: RecordView) -> int {
    span(r.left, r.right)
}

/// Height of a layer: `bottom - top`, or 0 for inverted bounds.
pub open spec fn rec_height(r: RecordView) -> int {
    span(r.top, r.bottom)
}

/// The size of the plane of channel `id`: the user mask's for the user-mask
/// channel (-2) where the layer has a mask, the layer's otherwise.
pub open spec fn plane_dims(r: RecordView, id: i16) -> (int, int) {
    if id == -2 && r.mask_info is Some {
        let m = r.mask_info->Some_0;
        (span(m.left, m.right), span(m.top, m.bottom))
    } else {
        (rec_width(r), rec_height(r))
    }
}

/// The planes of the first `k` channels of `r`, stored one after another from
/// `p`, and the position after them.
pub open spec fn planes_spec(s: Seq<u8>, p: int, r: RecordView, k: nat, depth: int) -> Result<
    (Seq<Seq<u8>>, int),
    PsdError,
>
    decreases k,
{
    if k == 0 {
        Ok((Seq::empty(), p))
    } else {
        match planes_spec(s, p, r, (k - 1) as nat, depth) {
            Err(e) => Err(e),
            Ok((ps, q)) => {
                let id = r.channels[k - 1].0;
                let len = r.channels[k - 1].1 as int;
                let (cw, ch) = plane_dims(r, id);
                if cw * ch * 4 > usize::MAX {
                    Err(PsdError::InvalidLayerData)
                } else if q + len > usize::MAX {
                    Err(PsdError::UnexpectedEndOfFile)
                } else {
                    match channel_plane(s, q, cw, ch, len, depth) {
                        Err(e) => Err(e),
                        Ok(pl) => Ok((ps.push(pl), q + len)),
                    }
                }
            },
        }
    }
}

pub proof fn lemma_planes_err(s: Seq<u8>, p: int, r: RecordView, k: nat, m: nat, depth: int)
    requires
        k <= m,
        planes_spec(s, p, r, k, depth) is Err,
    ensures
        planes_spec(s, p, r, m, depth) == planes_spec(s, p, r, k, depth),
    decreases m - k,
{
    if k < m {
        lemma_planes_err(s, p, r, k, (m - 1) as nat, depth);
    }
}

/// The index of the last channel among the first `k` with id `id`, or -1.
pub open spec fn last_index(chans: Seq<(i16, u64)>, id: i16, k: int) -> int
    decreases k,
{
    if k <= 0 {
        -1
    } else if chans[k - 1].0 == id {
        k - 1
    } else {
        last_index(chans, id, k - 1)
    }
}

/// The plane of channel `id`; where the id occurs twice, the later one.
pub open spec fn plane_of(chans: Seq<(i16, u64)>, planes: Seq<Seq<u8>>, id: i16) -> Option<Seq<u8>> {
    let j = last_index(chans, id, chans.len() as int);
    if 0 <= j < planes.len() { Some(planes[j]) } else { None }
}

/// Sample `i` of an optional plane, `d` where the plane is absent or too short.
pub open spec fn sample(pl: Option<Seq<u8>>, i: int, d: u8) -> u8 {
    match pl {
        Some(v) => if 0 <= i < v.len() { v[i] } else { d },
        None => d,
    }
}

/// The RGB colour of pixel `i` of a layer.
pub open spec fn pixel_rgb(
    mode: ColorMode,
    chans: Seq<(i16, u64)>,
    planes: Seq<Seq<u8>>,
    palette: Seq<u8>,
    i: int,
) -> (u8, u8, u8) {
    let c0 = plane_of(chans, planes, 0);
    let c1 = plane_of(chans, planes, 1);
    let c2 = plane_of(chans, planes, 2);
    let c3 = plane_of(chans, planes, 3);
    match mode {
        ColorMode::Rgb => (sample(c0, i, 0), sample(c1, i, 0), sample(c2, i, 0)),
        ColorMode::Cmyk => (
            cmyk_component(sample(c0, i, 0), sample(c3, i, 0)) as u8,
            cmyk_component(sample(c1, i, 0), sample(c3, i, 0)) as u8,
            cmyk_component(sample(c2, i, 0), sample(c3, i, 0)) as u8,
        ),
        ColorMode::Lab => lab_rgb(sample(c0, i, 0), sample(c1, i, 128), sample(c2, i, 128)),
        ColorMode::Indexed => if c0 is Some {
            indexed_rgb(palette, sample(c0, i, 0))
        } else {
            (0, 0, 0)
        },
        ColorMode::Grayscale | ColorMode::Bitmap => (
            sample(c0, i, 0),
            sample(c0, i, 0),
            sample(c0, i, 0),
        ),
        _ => (0, 0, 0),
    }
}

/// The alpha of the layer pixel at `(x, y)`, index `i`: the alpha channel (255
/// where there is none), scaled by the user mask at the same canvas position.
pub open spec fn pixel_alpha(r: RecordView, planes: Seq<Seq<u8>>, x: int, y: int, i: int) -> u8 {
    let base = sample(plane_of(r.channels, planes, -1i16), i, 255);
    let mp = plane_of(r.channels, planes, -2i16);
    if r.mask_info is Some && mp is Some {
        scaled(base, mask_value(r.mask_info->Some_0, mp->Some_0, r.left + x, r.top + y))
    } else {
        base
    }
}

/// The pixel at index `i`, row by row.
pub open spec fn layer_pixel(
    r: RecordView,
    planes: Seq<Seq<u8>>,
    mode: ColorMode,
    palette: Seq<u8>,
    i: int,
) -> (u8, u8, u8, u8) {
    let w = rec_width(r);
    let rgb = pixel_rgb(mode, r.channels, planes, palette, i);
    (rgb.0, rgb.1, rgb.2, pixel_alpha(r, planes, i % w, i / w, i))
}

/// Component `c` of a pixel.
pub open spec fn component(px: (u8, u8, u8, u8), c: int) -> u8 {
    if c == 0 {
        px.0
    } else if c == 1 {
        px.1
    } else if c == 2 {
        px.2
    } else {
        px.3
    }
}

/// Pixels laid out as bytes R, G, B, A.
pub open spec fn flatten(px: Seq<(u8, u8, u8, u8)>) -> Seq<u8> {
    Seq::new(4 * px.len(), |k: int| component(px[k / 4], k % 4))
}

/// The RGBA bytes of a decoded layer.
pub open spec fn layer_rgba(r: RecordView, planes: Seq<Seq<u8>>, mode: ColorMode, palette: Seq<u8>) -> Seq<u8> {
    flatten(Seq::new((rec_width(r) * rec_height(r)) as nat, |i: int| layer_pixel(r, planes, mode, palette, i)))
}

/// A layer with a user mask takes, for each pixel, the mask sample at the same
/// canvas position, which lies inside the mask plane, or the default fill where
/// that position is outside the mask's bounds; never a sample at the pixel's
/// own buffer index.
pub proof fn lemma_mask_alignment(
    r: RecordView,
    planes: Seq<Seq<u8>>,
    mode: ColorMode,
    palette: Seq<u8>,
    x: int,
    y: int,
)
    requires
        planes_sized(r, planes),
        r.mask_info is Some,
        plane_of(r.channels, planes, -2i16) is Some,
        0 <= x < rec_width(r),
        0 <= y < rec_height(r),
    ensures
        ({
            let w = rec_width(r);
            let i = y * w + x;
            let m = r.mask_info->Some_0;
            let mp = plane_of(r.channels, planes, -2i16)->Some_0;
            let base = sample(plane_of(r.channels, planes, -1i16), i, 255);
            let gx = r.left + x;
            let gy = r.top + y;
            &&& 0 <= 4 * i + 3 < layer_rgba(r, planes, mode, palette).len()
            &&& in_mask(m, gx, gy) ==> 0 <= mask_index(m, gx, gy) < mp.len()
            &&& layer_rgba(r, planes, mode, palette)[4 * i + 3] == if in_mask(m, gx, gy) {
                scaled(base, mp[mask_index(m, gx, gy)])
            } else {
                scaled(base, m.default_color)
            }
        }),
{
    let w = rec_width(r);
    let h = rec_height(r);
    let i = y * w + x;
    let m = r.mask_info->Some_0;
    lemma_last_index(r.channels, -2i16, r.channels.len() as int);
    let j = last_index(r.channels, -2i16, r.channels.len() as int);
    assert(planes[j].len() == span(m.left, m.right) * span(m.top, m.bottom));
    if in_mask(m, r.left + x, r.top + y) {
        crate::mask::lemma_mask_index_in_plane(m, r.left + x, r.top + y);
    }
    assert(0 <= i < w * h) by (nonlinear_arith)
        requires
            0 <= x < w,
            0 <= y < h,
            i == y * w + x,
    ;
    vstd::arithmetic::div_mod::lemma_fundamental_div_mod_converse(i, w, y, x);
    let px = Seq::new((w * h) as nat, |k: int| layer_pixel(r, planes, mode, palette, k));
    assert((4 * i + 3) / 4 == i);
    assert((4 * i + 3) % 4 == 3);
    assert(flatten(px)[4 * i + 3] == component(px[i], 3));
}

/// The views of a list of planes.
pub open spec fn planes_view(v: Seq<Vec<u8>>) -> Seq<Seq<u8>> {
    Seq::new(v.len(), |j: int| v[j]@)
}

pub proof fn lemma_flatten_push(px: Seq<(u8, u8, u8, u8)>, p: (u8, u8, u8, u8))
    ensures
        flatten(px.push(p)) == flatten(px) + seq![p.0, p.1, p.2, p.3],
{
    let a = flatten(px.push(p));
    let b = flatten(px) + seq![p.0, p.1, p.2, p.3];
    assert forall|k: int| 0 <= k < a.len() implies a[k] == b[k] by {
        if k < 4 * px.len() {
            assert(k / 4 < px.len());
        } else {
            assert(k / 4 == px.len());
        }
    }
    assert(a =~= b);
}

proof fn lemma_last_index(chans: Seq<(i16, u64)>, id: i16, k: int)
    requires
        0 <= k <= chans.len(),
    ensures
        -1 <= last_index(chans, id, k) < k,
        last_index(chans, id, k) >= 0 ==> chans[last_index(chans, id, k)].0 == id,
    decreases k,
{
    if k > 0 {
        lemma_last_index(chans, id, k - 1);
    }
}

fn find_plane(chans: &Vec<(i16, u64)>, id: i16) -> (r: Option<usize>)
    ensures
        match r {
            Some(j) => j as int == last_index(chans@, id, chans@.len() as int) && j < chans@.len(),
            None => last_index(chans@, id, chans@.len() as int) == -1,
        },
{
    let mut k: usize = chans.len();
    while k > 0
        invariant
            k <= chans@.len(),
            last_index(chans@, id, chans@.len() as int) == last_index(chans@, id, k as int),
        decreases k,
    {
        if chans[k - 1].0 == id {
            return Some(k - 1);
        }
        k = k - 1;
    }
    None
}

fn sample_at(planes: &Vec<Vec<u8>>, j: Option<usize>, i: usize, d: u8) -> (r: u8)
    requires
        j is Some ==> j->Some_0 < planes@.len(),
    ensures
        r == sample(
            match j {
                Some(k) => Some(planes@[k as int]@),
                None => None,
            },
            i as int,
            d,
        ),
{
    match j {
        Some(k) => if i < planes[k].len() {
            planes[k][i]
        } else {
            d
        },
        None => d,
    }
}

/// Where each channel that the assembly reads stands among the planes.
pub struct PlaneSlots {
    pub c0: Option<usize>,
    pub c1: Option<usize>,
    pub c2: Option<usize>,
    pub c3: Option<usize>,
    pub alpha: Option<usize>,
    pub mask: Option<usize>,
}

/// `j` is where channel `id` stands among `n` planes.
pub open spec fn slot_ok(chans: Seq<(i16, u64)>, n: int, id: i16, j: Option<usize>) -> bool {
    match j {
        Some(k) => k < n && k as int == last_index(chans, id, chans.len() as int),
        None => last_index(chans, id, chans.len() as int) == -1,
    }
}

pub open spec fn slots_ok(chans: Seq<(i16, u64)>, n: int, sl: PlaneSlots) -> bool {
    &&& slot_ok(chans, n, 0i16, sl.c0)
    &&& slot_ok(chans, n, 1i16, sl.c1)
    &&& slot_ok(chans, n, 2i16, sl.c2)
    &&& slot_ok(chans, n, 3i16, sl.c3)
    &&& slot_ok(chans, n, -1i16, sl.alpha)
    &&& slot_ok(chans, n, -2i16, sl.mask)
}

/// Whether every plane has the size that its channel calls for.
pub open spec fn planes_sized(r: RecordView, planes: Seq<Seq<u8>>) -> bool {
    &&& planes.len() == r.channels.len()
    &&& forall|j: int|
        0 <= j < planes.len() ==> #[trigger] planes[j].len() == plane_dims(r, r.channels[j].0).0
            * plane_dims(r, r.channels[j].0).1
}

fn find_slots(chans: &Vec<(i16, u64)>) -> (r: PlaneSlots)
    ensures
        slots_ok(chans@, chans@.len() as int, r),
{
    PlaneSlots {
        c0: find_plane(chans, 0),
        c1: find_plane(chans, 1),
        c2: find_plane(chans, 2),
        c3: find_plane(chans, 3),
        alpha: find_plane(chans, -1),
        mask: find_plane(chans, -2),
    }
}

/// Computes pixel `i`, which stands at column `x` and row `y`.
#[verifier::rlimit(30)]
fn layer_pixel_at(
    rec: &LayerRecord,
    planes: &Vec<Vec<u8>>,
    sl: &PlaneSlots,
    mode: ColorMode,
    palette: &[u8],
    i: usize,
    x: u64,
    y: u64,
) -> (r: (u8, u8, u8, u8))
    requires
        planes_sized(rec.view(), planes_view(planes@)),
        slots_ok(rec.channels@, planes@.len() as int, *sl),
        x < rec_width(rec.view()),
        y < rec_height(rec.view()),
        i == y * rec_width(rec.view()) + x,
    ensures
        r == layer_pixel(rec.view(), planes_view(planes@), mode, palette@, i as int),
{
    let ghost rv = rec.view();
    let ghost pv = planes_view(planes@);
    proof {
        vstd::arithmetic::div_mod::lemma_fundamental_div_mod_converse(
            i as int,
            rec_width(rv),
            y as int,
            x as int,
        );
    }
    let c0 = sample_at(planes, sl.c0, i, 0);
    let c1 = sample_at(planes, sl.c1, i, 0);
    let c2 = sample_at(planes, sl.c2, i, 0);
    let c3 = sample_at(planes, sl.c3, i, 0);
    let rgb: (u8, u8, u8) = match mode {
        ColorMode::Rgb => (c0, c1, c2),
        ColorMode::Cmyk => cmyk_to_rgb(c0, c1, c2, c3),
        ColorMode::Lab => {
            let a = sample_at(planes, sl.c1, i, 128);
            let b = sample_at(planes, sl.c2, i, 128);
            lab_to_rgb(c0, a, b)
        },
        ColorMode::Indexed => if sl.c0.is_some() {
            indexed_to_rgb(palette, c0)
        } else {
            (0, 0, 0)
        },
        ColorMode::Grayscale | ColorMode::Bitmap => (c0, c0, c0),
        _ => (0, 0, 0),
    };
    let base = sample_at(planes, sl.alpha, i, 255);
    let alpha: u8 = match (&rec.mask_info, sl.mask) {
        (Some(m), Some(k)) => {
            proof {
                lemma_last_index(rec.channels@, -2i16, rec.channels@.len() as int);
                assert(pv[k as int].len() == plane_dims(rv, rv.channels[k as int].0).0 * plane_dims(
                    rv,
                    rv.channels[k as int].0,
                ).1);
            }
            let v = mask_sample(
                m,
                planes[k].as_slice(),
                rec.left as i64 + x as i64,
                rec.top as i64 + y as i64,
            );
            assert(base as u32 * v as u32 / 255 <= 255) by (nonlinear_arith)
                requires
                    base <= 255,
                    v <= 255,
            ;
            (base as u32 * v as u32 / 255) as u8
        },
        _ => base,
    };
    (rgb.0, rgb.1, rgb.2, alpha)
}

/// Builds the RGBA bytes of a layer from its decoded planes.
#[verifier::rlimit(30)]
pub fn assemble_layer(rec: &LayerRecord, planes: &Vec<Vec<u8>>, mode: ColorMode, palette: &[u8]) -> (r:
    Vec<u8>)
    requires
        planes_sized(rec.view(), planes_view(planes@)),
        rec_width(rec.view()) * rec_height(rec.view()) * 4 <= usize::MAX,
    ensures
        r@ == layer_rgba(rec.view(), planes_view(planes@), mode, palette@),
{
    let ghost rv = rec.view();
    let ghost pv = planes_view(planes@);
    let w: u64 = if rec.right as i64 - rec.left as i64 > 0 {
        (rec.right as i64 - rec.left as i64) as u64
    } else {
        0
    };
    let h: u64 = if rec.bottom as i64 - rec.top as i64 > 0 {
        (rec.bottom as i64 - rec.top as i64) as u64
    } else {
        0
    };
    let n: usize = (w * h) as usize;
    let sl = find_slots(&rec.channels);
    let ghost pixels = Seq::new(n as nat, |i: int| layer_pixel(rv, pv, mode, palette@, i));
    let mut out: Vec<u8> = Vec::new();
    let mut i: usize = 0;
    let mut x: u64 = 0;
    let mut y: u64 = 0;
    while i < n
        invariant
            i <= n,
            n == w * h,
            w == rec_width(rv),
            h == rec_height(rv),
            x < w || n == 0,
            y <= h,
            i == y * w + x,
            pixels.len() == n,
            pixels == Seq::new(n as nat, |i: int| layer_pixel(rv, pv, mode, palette@, i)),
            rv == rec.view(),
            pv == planes_view(planes@),
            planes_sized(rv, pv),
            slots_ok(rec.channels@, planes@.len() as int, sl),
            out@ == flatten(pixels.subrange(0, i as int)),
        decreases n - i,
    {
        proof {
            assert(y < h) by (nonlinear_arith)
                requires
                    y * w + x < w * h,
                    0 <= x,
                    w > 0,
            ;
        }
        let px = layer_pixel_at(rec, planes, &sl, mode, palette, i, x, y);
        proof {
            lemma_flatten_push(pixels.subrange(0, i as int), px);
            assert(pixels.subrange(0, i as int).push(px) =~= pixels.subrange(0, i + 1));
        }
        out.push(px.0);
        out.push(px.1);
        out.push(px.2);
        out.push(px.3);
        i = i + 1;
        x = x + 1;
        if x == w {
            proof {
                assert((y + 1) * w == y * w + w) by (nonlinear_arith);
                assert(y + 1 <= h) by (nonlinear_arith)
                    requires
                        (y + 1) * w <= w * h,
                        w > 0,
                ;
            }
            x = 0;
            y = y + 1;
        }
    }
    assert(pixels.subrange(0, n as int) =~= pixels);
    out
}

} // verus!
