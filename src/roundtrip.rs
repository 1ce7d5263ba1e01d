//! Decoding what the encoder wrote gives the written layers back.

use vstd::prelude::*;
use crate::blend::{blend_at, blend_key};
use crate::bytes::{be_i16, be_i32, be_u16, be_u32, enc_i32, enc_u16, enc_u32, signed16, signed32};
use crate::cursor::fits;
use crate::info::tag_at;
use crate::info::{
    apply_record, info_records, key_at, len_at, len_width, pad4, record_step, signature_at, InfoKey,
    InfoView,
};
use crate::layers::{
    bim_at, channel_table, extra_spec, head_spec, record_spec, records_spec, HeadView, RecordView,
};
use crate::channel::{channel_plane, downsampled};
use crate::pixels::{
    component, flatten, last_index, layer_pixel, layer_rgba, pixel_alpha, pixel_rgb, plane_dims, plane_of,
    planes_spec, rec_height, rec_width, sample,
};
use crate::section::{layer_body, layer_count, layer_image, layer_images, layer_section};
use crate::composite::{composite_data, composite_pixel, composite_spec, flat_sample};
use crate::decode::{document_spec, palette_spec, resources_end, DocView};
use crate::header::{header_spec, has_magic, magic};
use crate::mask::span;
use crate::model::{ColorMode, Psd, PsdHeader};
use crate::rle::fit;
use crate::model::{BlendMode, PsdError, PsdLayer, PsdLayerType};
use crate::text::utf16_units;
use crate::writer::{
    bim, channel_entries, record_back, record_front, extra_bytes, flags_byte, layer_writable, luni_body, luni_record, pascal_name,
    pixel_count, record_bytes, units_bytes, zeros, records_bytes, data_bytes, layer_data, plane_bytes,
    section_body, layer_info, document_bytes, resolution_resource, writable,
};
use vstd::utf8::encode_utf8;

verus! {

/// `x` stands in `s` at position `p`.
pub open spec fn at(s: Seq<u8>, p: int, x: Seq<u8>) -> bool {
    0 <= p && p + x.len() <= s.len() && s.subrange(p, p + x.len()) == x
}

pub proof fn lemma_at_split(s: Seq<u8>, p: int, x: Seq<u8>, y: Seq<u8>)
    requires
        at(s, p, x + y),
    ensures
        at(s, p, x),
        at(s, p + x.len(), y),
{
    assert(s.subrange(p, p + x.len()) =~= (x + y).subrange(0, x.len() as int));
    assert((x + y).subrange(0, x.len() as int) =~= x);
    assert(s.subrange(p + x.len(), p + x.len() + y.len()) =~= (x + y).subrange(
        x.len() as int,
        (x + y).len() as int,
    ));
    assert((x + y).subrange(x.len() as int, (x + y).len() as int) =~= y);
}

pub proof fn lemma_at_index(s: Seq<u8>, p: int, x: Seq<u8>, k: int)
    requires
        at(s, p, x),
        0 <= k < x.len(),
    ensures
        s[p + k] == x[k],
{
    assert(s.subrange(p, p + x.len())[k] == x[k]);
}

pub proof fn lemma_read_u16(s: Seq<u8>, p: int, v: int)
    requires
        at(s, p, enc_u16(v)),
        0 <= v < 65536,
    ensures
        be_u16(s, p) == v,
        fits(s, p, 2),
{
    lemma_at_index(s, p, enc_u16(v), 0);
    lemma_at_index(s, p, enc_u16(v), 1);
}

pub proof fn lemma_read_u32(s: Seq<u8>, p: int, v: int)
    requires
        at(s, p, enc_u32(v)),
        0 <= v < 4294967296,
    ensures
        be_u32(s, p) == v,
        fits(s, p, 4),
{
    lemma_at_split(s, p, enc_u16(v / 65536), enc_u16(v % 65536));
    lemma_read_u16(s, p, v / 65536);
    lemma_read_u16(s, p + 2, v % 65536);
}

pub proof fn lemma_read_i32(s: Seq<u8>, p: int, v: i32)
    requires
        at(s, p, enc_i32(v as int)),
    ensures
        be_i32(s, p) == v,
        fits(s, p, 4),
{
    if v < 0 {
        lemma_read_u32(s, p, v + 4294967296);
    } else {
        lemma_read_u32(s, p, v as int);
    }
}

pub proof fn lemma_blend_key_round_trip(s: Seq<u8>, p: int, m: BlendMode)
    requires
        at(s, p, blend_key(m)),
    ensures
        blend_at(s, p) == m,
{
    lemma_at_index(s, p, blend_key(m), 0);
    lemma_at_index(s, p, blend_key(m), 1);
    lemma_at_index(s, p, blend_key(m), 2);
    lemma_at_index(s, p, blend_key(m), 3);
}

/// The channel table that the encoder writes for a pixel layer.
pub open spec fn written_channels(l: PsdLayer) -> Seq<(i16, u64)> {
    let n = (pixel_count(l) + 2) as u64;
    seq![(0i16, n), (1i16, n), (2i16, n), (-1i16, n)]
}

/// What reading back a written pixel-layer record gives.
pub open spec fn written_view(v: RecordView, l: PsdLayer) -> bool {
    &&& v.top == l.top
    &&& v.left == l.left
    &&& v.bottom == l.bottom
    &&& v.right == l.right
    &&& v.channels == written_channels(l)
    &&& v.blend_mode == l.blend_mode
    &&& v.opacity == l.opacity
    &&& !v.clipping
    &&& v.visible == l.visible
    &&& v.mask_info is None
    &&& v.info.layer_type == PsdLayerType::Normal
}

proof fn lemma_pad4_idempotent(x: int)
    requires
        x >= 0,
    ensures
        pad4(pad4(x)) == pad4(x),
        pad4(x) >= x,
        pad4(x) - x < 4,
{
}

proof fn lemma_visible_flag(f: u8, visible: bool)
    requires
        f == flags_byte(visible),
    ensures
        (f & 2 == 0) == visible,
{
    if visible {
        assert(0u8 & 2u8 == 0u8) by (bit_vector);
    } else {
        assert(2u8 & 2u8 == 2u8) by (bit_vector);
    }
}

/// The `luni` record that the encoder writes is read as one record that ends
/// exactly where it was written to end, and keeps the layer type.
#[verifier::rlimit(30)]
proof fn lemma_luni_read(s: Seq<u8>, p: int, name: Seq<char>, w: int, h: int, acc: InfoView)
    requires
        at(s, p, luni_record(name)),
        utf16_units(name).len() < 4294967296,
        luni_body(name).len() < 4294967296,
        p + luni_record(name).len() <= usize::MAX,
    ensures
        info_records(s, p, p + luni_record(name).len(), 1, w, h, acc) is Ok,
        info_records(s, p, p + luni_record(name).len(), 1, w, h, acc)->Ok_0.layer_type == acc.layer_type,
{
    let u = utf16_units(name);
    let body0 = enc_u32(u.len() as int) + units_bytes(u);
    let lb = luni_body(name);
    let key = seq![0x6cu8, 0x75u8, 0x6eu8, 0x69u8];
    let end = p + luni_record(name).len();
    lemma_at_split(s, p, bim() + key + enc_u32(lb.len() as int), lb);
    lemma_at_split(s, p, bim() + key, enc_u32(lb.len() as int));
    lemma_at_split(s, p, bim(), key);
    lemma_at_index(s, p, bim(), 0);
    lemma_at_index(s, p, bim(), 1);
    lemma_at_index(s, p, bim(), 2);
    lemma_at_index(s, p, bim(), 3);
    lemma_at_index(s, p + 4, key, 0);
    lemma_at_index(s, p + 4, key, 1);
    lemma_at_index(s, p + 4, key, 2);
    lemma_at_index(s, p + 4, key, 3);
    assert(signature_at(s, p));
    assert(key_at(s, p + 4) == InfoKey::UnicodeName);
    lemma_read_u32(s, p + 8, lb.len() as int);
    assert(len_at(s, p + 8, 1) == lb.len());
    lemma_pad4_idempotent(body0.len() as int);
    assert(lb.len() == pad4(body0.len() as int));
    assert(pad4(lb.len() as int) == lb.len());
    let body = p + 12;
    lemma_at_split(s, body, body0, zeros(pad4(body0.len() as int) - body0.len()));
    lemma_at_split(s, body, enc_u32(u.len() as int), units_bytes(u));
    lemma_read_u32(s, body, u.len() as int);
    assert(fits(s, body + 4, 2 * u.len() as int));
    let a = apply_record(s, InfoKey::UnicodeName, body, lb.len() as int, end, w, h, acc);
    assert(a is Ok);
    assert(a->Ok_0.layer_type == acc.layer_type);
    assert(record_step(s, p, 1, w, h, acc) == Ok::<Option<(InfoView, int)>, PsdError>(
        Some((a->Ok_0, end)),
    ));
}

proof fn lemma_channels_read(s: Seq<u8>, c: int, l: PsdLayer)
    requires
        at(s, c, channel_entries(l)),
        l.layer_type == PsdLayerType::Normal,
        layer_writable(l),
    ensures
        fits(s, c, 24),
        channel_table(s, c, 4, 1) == written_channels(l),
{
    let pc = pixel_count(l);
    let e = enc_u32(pc + 2);
    let c1 = enc_u16(0) + e;
    let c2 = c1 + enc_u16(1) + e;
    let c3 = c2 + enc_u16(2) + e;
    assert(channel_entries(l) == c3 + enc_u16(0xffff) + e);
    lemma_at_split(s, c, c3 + enc_u16(0xffff), e);
    lemma_at_split(s, c, c3, enc_u16(0xffff));
    lemma_at_split(s, c, c2 + enc_u16(2), e);
    lemma_at_split(s, c, c2, enc_u16(2));
    lemma_at_split(s, c, c1 + enc_u16(1), e);
    lemma_at_split(s, c, c1, enc_u16(1));
    lemma_at_split(s, c, enc_u16(0), e);
    lemma_read_u16(s, c, 0);
    lemma_read_u32(s, c + 2, pc + 2);
    lemma_read_u16(s, c + 6, 1);
    lemma_read_u32(s, c + 8, pc + 2);
    lemma_read_u16(s, c + 12, 2);
    lemma_read_u32(s, c + 14, pc + 2);
    lemma_read_u16(s, c + 18, 0xffff);
    lemma_read_u32(s, c + 20, pc + 2);
    let tbl = channel_table(s, c, 4, 1);
    assert(tbl[0] == (0i16, (pc + 2) as u64));
    assert(tbl[1] == (1i16, (pc + 2) as u64));
    assert(tbl[2] == (2i16, (pc + 2) as u64));
    assert(tbl[3] == (-1i16, (pc + 2) as u64));
    assert(tbl =~= written_channels(l));
}

#[verifier::rlimit(30)]
proof fn lemma_front_pieces(s: Seq<u8>, q: int, l: PsdLayer)
    requires
        at(s, q, record_front(l)),
        l.layer_type == PsdLayerType::Normal,
        layer_writable(l),
    ensures
        be_i32(s, q) == l.top,
        be_i32(s, q + 4) == l.left,
        be_i32(s, q + 8) == l.bottom,
        be_i32(s, q + 12) == l.right,
        be_u16(s, q + 16) == 4,
        fits(s, q, 18),
        fits(s, q + 18, 24),
        channel_table(s, q + 18, 4, 1) == written_channels(l),
{
    let e1 = enc_i32(l.top as int);
    let e2 = enc_i32(l.left as int);
    let e3 = enc_i32(l.bottom as int);
    let e4 = enc_i32(l.right as int);
    let p4 = e1 + e2 + e3 + e4;
    lemma_at_split(s, q, p4 + enc_u16(4), channel_entries(l));
    lemma_at_split(s, q, p4, enc_u16(4));
    lemma_at_split(s, q, e1 + e2 + e3, e4);
    lemma_at_split(s, q, e1 + e2, e3);
    lemma_at_split(s, q, e1, e2);
    lemma_read_i32(s, q, l.top);
    lemma_read_i32(s, q + 4, l.left);
    lemma_read_i32(s, q + 8, l.bottom);
    lemma_read_i32(s, q + 12, l.right);
    lemma_read_u16(s, q + 16, 4);
    lemma_channels_read(s, q + 18, l);
}

#[verifier::rlimit(30)]
proof fn lemma_back_pieces(s: Seq<u8>, b: int, l: PsdLayer)
    requires
        at(s, b, record_back(l)),
        layer_writable(l),
    ensures
        fits(s, b, 16),
        bim_at(s, b),
        blend_at(s, b + 4) == l.blend_mode,
        s[b + 8] == l.opacity,
        s[b + 9] == 0,
        (s[b + 10] & 2 == 0) == l.visible,
        be_u32(s, b + 12) == extra_bytes(l).len(),
{
    let x = extra_bytes(l);
    let seq4 = seq![l.opacity, 0u8, flags_byte(l.visible), 0u8];
    let k = blend_key(l.blend_mode);
    lemma_at_split(s, b, bim() + k + seq4, enc_u32(x.len() as int));
    lemma_at_split(s, b, bim() + k, seq4);
    lemma_at_split(s, b, bim(), k);
    lemma_at_index(s, b, bim(), 0);
    lemma_at_index(s, b, bim(), 1);
    lemma_at_index(s, b, bim(), 2);
    lemma_at_index(s, b, bim(), 3);
    lemma_blend_key_round_trip(s, b + 4, l.blend_mode);
    lemma_at_index(s, b + 8, seq4, 0);
    lemma_at_index(s, b + 8, seq4, 1);
    lemma_at_index(s, b + 8, seq4, 2);
    lemma_visible_flag(s[b + 10], l.visible);
    lemma_read_u32(s, b + 12, x.len() as int);
}

#[verifier::rlimit(40)]
proof fn lemma_head_read(s: Seq<u8>, q: int, l: PsdLayer)
    requires
        at(s, q, record_front(l) + record_back(l)),
        l.layer_type == PsdLayerType::Normal,
        layer_writable(l),
    ensures
        head_spec(s, q, 1) is Ok,
        head_spec(s, q, 1)->Ok_0.1 == q + 58,
        head_spec(s, q, 1)->Ok_0.0.extra_len == extra_bytes(l).len(),
        head_spec(s, q, 1)->Ok_0.0.top == l.top,
        head_spec(s, q, 1)->Ok_0.0.left == l.left,
        head_spec(s, q, 1)->Ok_0.0.bottom == l.bottom,
        head_spec(s, q, 1)->Ok_0.0.right == l.right,
        head_spec(s, q, 1)->Ok_0.0.channels == written_channels(l),
        head_spec(s, q, 1)->Ok_0.0.blend_mode == l.blend_mode,
        head_spec(s, q, 1)->Ok_0.0.opacity == l.opacity,
        !head_spec(s, q, 1)->Ok_0.0.clipping,
        head_spec(s, q, 1)->Ok_0.0.visible == l.visible,
{
    let b = q + 42;
    assert(fits(s, q, 18) && fits(s, q + 18, 24) && be_i32(s, q) == l.top && be_i32(s, q + 4) == l.left
        && be_i32(s, q + 8) == l.bottom && be_i32(s, q + 12) == l.right && be_u16(s, q + 16) == 4
        && channel_table(s, q + 18, 4, 1) == written_channels(l) && fits(s, b, 16) && bim_at(s, b)
        && blend_at(s, b + 4) == l.blend_mode && s[b + 8] == l.opacity && s[b + 9] == 0 && (s[b + 10]
        & 2 == 0) == l.visible && be_u32(s, b + 12) == extra_bytes(l).len()) by {
        lemma_at_split(s, q, record_front(l), record_back(l));
        lemma_front_pieces(s, q, l);
        lemma_back_pieces(s, q + 42, l);
    }
    reveal(head_spec);
    assert(len_width(1) == 4);
    assert(4 * (2 + len_width(1)) == 24);
    assert(head_spec(s, q, 1) == Ok::<(HeadView, int), PsdError>(
        (
            HeadView {
                top: l.top,
                left: l.left,
                bottom: l.bottom,
                right: l.right,
                channels: written_channels(l),
                blend_mode: l.blend_mode,
                opacity: l.opacity,
                clipping: false,
                visible: l.visible,
                extra_len: extra_bytes(l).len() as u32,
            },
            q + 58,
        ),
    ));
}

/// A written pixel-layer record reads back as a record with the written
/// bounds, channels, blend mode, opacity and visibility, ending where it was
/// written to end.
#[verifier::rlimit(30)]
pub proof fn lemma_record_read(s: Seq<u8>, q: int, l: PsdLayer, w: int, h: int)
    requires
        at(s, q, record_bytes(l)),
        l.layer_type == PsdLayerType::Normal,
        layer_writable(l),
        q + record_bytes(l).len() <= usize::MAX,
    ensures
        record_spec(s, q, 1, w, h) is Ok,
        record_spec(s, q, 1, w, h)->Ok_0.1 == q + record_bytes(l).len(),
        written_view(record_spec(s, q, 1, w, h)->Ok_0.0, l),
{
    reveal(record_bytes);
    reveal(record_spec);
    lemma_at_split(s, q, record_front(l) + record_back(l), extra_bytes(l));
    lemma_head_read(s, q, l);
    lemma_extra_read(s, q + 58, l, w, h);
}

/// The extra data that the encoder writes for a pixel layer reads back with
/// no mask and the layer type kept.
#[verifier::rlimit(30)]
proof fn lemma_extra_read(s: Seq<u8>, e0: int, l: PsdLayer, w: int, h: int)
    requires
        at(s, e0, extra_bytes(l)),
        l.layer_type == PsdLayerType::Normal,
        layer_writable(l),
        e0 + extra_bytes(l).len() <= usize::MAX,
    ensures
        extra_spec(s, e0, e0 + extra_bytes(l).len(), 1, w, h) is Ok,
        extra_spec(s, e0, e0 + extra_bytes(l).len(), 1, w, h)->Ok_0.0 is None,
        extra_spec(s, e0, e0 + extra_bytes(l).len(), 1, w, h)->Ok_0.1.layer_type
            == PsdLayerType::Normal,
{
    reveal(extra_spec);
    reveal(extra_bytes);
    let x = extra_bytes(l);
    let pn = pascal_name(encode_utf8(l.name@));
    let lu: Seq<u8> = if l.name@.len() > 0 { luni_record(l.name@) } else { Seq::empty() };
    assert(x == enc_u32(0) + enc_u32(0) + pn + lu + Seq::<u8>::empty());
    assert(x =~= enc_u32(0) + enc_u32(0) + pn + lu);
    lemma_at_split(s, e0, enc_u32(0) + enc_u32(0) + pn, lu);
    lemma_at_split(s, e0, enc_u32(0) + enc_u32(0), pn);
    lemma_at_split(s, e0, enc_u32(0), enc_u32(0));
    lemma_read_u32(s, e0, 0);
    lemma_read_u32(s, e0 + 4, 0);
    let nm = e0 + 8;
    let bytes = encode_utf8(l.name@);
    let n = if bytes.len() <= 255 { bytes.len() as int } else { 255 };
    lemma_at_index(s, nm, pn, 0);
    assert(s[nm] as int == n);
    assert(pn.len() == pad4(n + 1));
    let start = nm + pad4(n + 1);
    let xend = e0 + x.len();
    assert(start + lu.len() == xend);
    let info0 = InfoView {
        name: crate::text::utf8_lossy(s.subrange(nm + 1, nm + 1 + n)),
        layer_type: PsdLayerType::Normal,
        text: None,
        vector_mask: None,
    };
    if l.name@.len() > 0 {
        assert(lu.len() <= x.len());
        assert(utf16_units(l.name@).len() < 4294967296) by {
            assert(luni_body(l.name@).len() >= 2 * utf16_units(l.name@).len());
        }
        lemma_luni_read(s, start, l.name@, w, h, info0);
    } else {
        assert(start == xend);
    }
}

/// A layer that the encoder writes in full and the decoder reads back as is:
/// a pixel layer whose stored size matches its bounds and whose buffer holds
/// exactly its pixels.
pub open spec fn plain_layer(l: PsdLayer) -> bool {
    &&& l.layer_type == PsdLayerType::Normal
    &&& layer_writable(l)
    &&& l.right as int - l.left as int == l.width as int
    &&& l.bottom as int - l.top as int == l.height as int
    &&& l.rgba@.len() == 4 * pixel_count(l)
}

pub proof fn lemma_records_read(s: Seq<u8>, q0: int, ls: Seq<PsdLayer>, k: nat, w: int, h: int)
    requires
        k <= ls.len(),
        at(s, q0, records_bytes(ls, k)),
        q0 + records_bytes(ls, k).len() <= usize::MAX,
        forall|i: int| 0 <= i < ls.len() ==> #[trigger] plain_layer(ls[i]),
    ensures
        records_spec(s, q0, k, 1, w, h) is Ok,
        records_spec(s, q0, k, 1, w, h)->Ok_0.1 == q0 + records_bytes(ls, k).len(),
        records_spec(s, q0, k, 1, w, h)->Ok_0.0.len() == k,
        forall|i: int|
            0 <= i < k ==> #[trigger] written_view(records_spec(s, q0, k, 1, w, h)->Ok_0.0[i], ls[i]),
    decreases k,
{
    if k > 0 {
        let prev = records_bytes(ls, (k - 1) as nat);
        assert(records_bytes(ls, k) == prev + record_bytes(ls[k - 1]));
        lemma_at_split(s, q0, prev, record_bytes(ls[k - 1]));
        lemma_records_read(s, q0, ls, (k - 1) as nat, w, h);
        assert(plain_layer(ls[k - 1]));
        lemma_record_read(s, q0 + prev.len(), ls[k - 1], w, h);
        let r = records_spec(s, q0, k, 1, w, h)->Ok_0.0;
        let rp = records_spec(s, q0, (k - 1) as nat, 1, w, h)->Ok_0.0;
        assert forall|i: int| 0 <= i < k implies #[trigger] written_view(r[i], ls[i]) by {
            if i < k - 1 {
                assert(r[i] == rp[i]);
            }
        }
    }
}

proof fn lemma_plane_read(s: Seq<u8>, q: int, l: PsdLayer, c: int)
    requires
        at(s, q, enc_u16(0) + plane_bytes(l.rgba@, pixel_count(l), c)),
        plain_layer(l),
        0 <= c < 4,
    ensures
        channel_plane(s, q, l.width as int, l.height as int, pixel_count(l) + 2, 8) == Ok::<Seq<u8>, PsdError>(
            plane_bytes(l.rgba@, pixel_count(l), c),
        ),
{
    let n = pixel_count(l);
    let pl = plane_bytes(l.rgba@, n, c);
    lemma_at_split(s, q, enc_u16(0), pl);
    lemma_read_u16(s, q, 0);
    if l.width == 0 || l.height == 0 {
        assert(n == 0) by (nonlinear_arith)
            requires
                n == l.width as int * l.height as int,
                l.width == 0 || l.height == 0,
        ;
        assert(pl =~= Seq::<u8>::empty());
        assert(Seq::new((l.width as int * l.height as int) as nat, |_k: int| 0u8) =~= pl);
    } else {
        assert(s.subrange(q + 2, q + 2 + n) == pl);
        assert(fit(downsampled(s.subrange(q + 2, q + 2 + n), 8), n) =~= pl);
    }
}

proof fn lemma_written_slots(l: PsdLayer)
    ensures
        last_index(written_channels(l), 0i16, 4) == 0,
        last_index(written_channels(l), 1i16, 4) == 1,
        last_index(written_channels(l), 2i16, 4) == 2,
        last_index(written_channels(l), -1i16, 4) == 3,
        last_index(written_channels(l), 3i16, 4) == -1,
        last_index(written_channels(l), -2i16, 4) == -1,
{
    let ch = written_channels(l);
    assert(last_index(ch, 0i16, 1) == 0);
    assert(last_index(ch, 0i16, 2) == 0);
    assert(last_index(ch, 0i16, 3) == 0);
    assert(last_index(ch, 1i16, 2) == 1);
    assert(last_index(ch, 1i16, 3) == 1);
    assert(last_index(ch, 2i16, 3) == 2);
    assert(last_index(ch, 3i16, 0) == -1);
    assert(last_index(ch, 3i16, 1) == -1);
    assert(last_index(ch, 3i16, 2) == -1);
    assert(last_index(ch, 3i16, 3) == -1);
    assert(last_index(ch, -2i16, 0) == -1);
    assert(last_index(ch, -2i16, 1) == -1);
    assert(last_index(ch, -2i16, 2) == -1);
    assert(last_index(ch, -2i16, 3) == -1);
}

#[verifier::rlimit(30)]
proof fn lemma_pixels_back(v: RecordView, l: PsdLayer, planes: Seq<Seq<u8>>, palette: Seq<u8>)
    requires
        plain_layer(l),
        written_view(v, l),
        planes == seq![
            plane_bytes(l.rgba@, pixel_count(l), 0),
            plane_bytes(l.rgba@, pixel_count(l), 1),
            plane_bytes(l.rgba@, pixel_count(l), 2),
            plane_bytes(l.rgba@, pixel_count(l), 3),
        ],
    ensures
        layer_rgba(v, planes, ColorMode::Rgb, palette) == l.rgba@,
{
    let n = pixel_count(l);
    let w = rec_width(v);
    assert(w == l.width);
    assert(rec_height(v) == l.height);
    lemma_written_slots(l);
    let px = Seq::new((w * rec_height(v)) as nat, |i: int| layer_pixel(v, planes, ColorMode::Rgb, palette, i));
    assert forall|k: int| 0 <= k < 4 * n implies #[trigger] flatten(px)[k] == l.rgba@[k] by {
        let i = k / 4;
        let c = k % 4;
        assert(0 <= i < n);
        assert(4 * i + c == k);
        assert(sample(plane_of(v.channels, planes, 0i16), i, 0) == l.rgba@[4 * i]);
        assert(sample(plane_of(v.channels, planes, 1i16), i, 0) == l.rgba@[4 * i + 1]);
        assert(sample(plane_of(v.channels, planes, 2i16), i, 0) == l.rgba@[4 * i + 2]);
        assert(sample(plane_of(v.channels, planes, -1i16), i, 255) == l.rgba@[4 * i + 3]);
    }
    assert(flatten(px) =~= l.rgba@);
}

/// The channel data that the encoder writes for a plain layer reads back as
/// the layer's own RGBA bytes.
#[verifier::rlimit(30)]
pub proof fn lemma_image_read(s: Seq<u8>, p: int, v: RecordView, l: PsdLayer, hd: PsdHeader, palette: Seq<u8>)
    requires
        at(s, p, layer_data(l)),
        plain_layer(l),
        written_view(v, l),
        hd.depth == 8,
        hd.color_mode == ColorMode::Rgb,
        p + layer_data(l).len() <= usize::MAX,
    ensures
        layer_image(s, p, v, hd, palette) == Ok::<(Seq<u8>, int), PsdError>(
            (l.rgba@, p + layer_data(l).len()),
        ),
{
    let n = pixel_count(l);
    let p0 = plane_bytes(l.rgba@, n, 0);
    let p1 = plane_bytes(l.rgba@, n, 1);
    let p2 = plane_bytes(l.rgba@, n, 2);
    let p3 = plane_bytes(l.rgba@, n, 3);
    let z = enc_u16(0);
    assert(layer_data(l) == z + p0 + z + p1 + z + p2 + z + p3);
    let a1 = z + p0;
    let a2 = a1 + z + p1;
    let a3 = a2 + z + p2;
    assert(layer_data(l) =~= a1 + (z + p1) + (z + p2) + (z + p3));
    lemma_at_split(s, p, a1 + (z + p1) + (z + p2), z + p3);
    lemma_at_split(s, p, a1 + (z + p1), z + p2);
    lemma_at_split(s, p, a1, z + p1);
    let q1 = p + (n + 2);
    let q2 = q1 + (n + 2);
    let q3 = q2 + (n + 2);
    lemma_plane_read(s, p, l, 0);
    lemma_plane_read(s, q1, l, 1);
    lemma_plane_read(s, q2, l, 2);
    lemma_plane_read(s, q3, l, 3);
    assert(rec_width(v) == l.width);
    assert(rec_height(v) == l.height);
    assert(4 * n <= usize::MAX);
    assert(plane_dims(v, 0i16) == (l.width as int, l.height as int));
    assert(plane_dims(v, 1i16) == (l.width as int, l.height as int));
    assert(plane_dims(v, 2i16) == (l.width as int, l.height as int));
    assert(plane_dims(v, -1i16) == (l.width as int, l.height as int));
    assert(planes_spec(s, p, v, 0, 8) == Ok::<(Seq<Seq<u8>>, int), PsdError>((Seq::empty(), p)));
    assert(planes_spec(s, p, v, 1, 8) == Ok::<(Seq<Seq<u8>>, int), PsdError>((seq![p0], q1)));
    assert(seq![p0].push(p1) == seq![p0, p1]);
    assert(planes_spec(s, p, v, 2, 8) == Ok::<(Seq<Seq<u8>>, int), PsdError>((seq![p0, p1], q2)));
    assert(seq![p0, p1].push(p2) == seq![p0, p1, p2]);
    assert(planes_spec(s, p, v, 3, 8) == Ok::<(Seq<Seq<u8>>, int), PsdError>((seq![p0, p1, p2], q3)));
    assert(seq![p0, p1, p2].push(p3) == seq![p0, p1, p2, p3]);
    assert(planes_spec(s, p, v, 4, 8) == Ok::<(Seq<Seq<u8>>, int), PsdError>(
        (seq![p0, p1, p2, p3], q3 + (n + 2)),
    ));
    lemma_pixels_back(v, l, seq![p0, p1, p2, p3], palette);
}

pub proof fn lemma_images_read(
    s: Seq<u8>,
    d0: int,
    views: Seq<RecordView>,
    ls: Seq<PsdLayer>,
    k: nat,
    hd: PsdHeader,
    palette: Seq<u8>,
)
    requires
        k <= ls.len(),
        views.len() == ls.len(),
        at(s, d0, data_bytes(ls, k)),
        d0 + data_bytes(ls, k).len() <= usize::MAX,
        forall|i: int| 0 <= i < ls.len() ==> #[trigger] plain_layer(ls[i]),
        forall|i: int| 0 <= i < ls.len() ==> #[trigger] written_view(views[i], ls[i]),
        hd.depth == 8,
        hd.color_mode == ColorMode::Rgb,
    ensures
        layer_images(s, d0, views, k, hd, palette) is Ok,
        layer_images(s, d0, views, k, hd, palette)->Ok_0.0.len() == k,
        layer_images(s, d0, views, k, hd, palette)->Ok_0.1 == d0 + data_bytes(ls, k).len(),
        forall|i: int|
            0 <= i < k ==> #[trigger] layer_images(s, d0, views, k, hd, palette)->Ok_0.0[i]
                == ls[i].rgba@,
    decreases k,
{
    if k > 0 {
        let prev = data_bytes(ls, (k - 1) as nat);
        assert(data_bytes(ls, k) == prev + layer_data(ls[k - 1]));
        lemma_at_split(s, d0, prev, layer_data(ls[k - 1]));
        lemma_images_read(s, d0, views, ls, (k - 1) as nat, hd, palette);
        assert(plain_layer(ls[k - 1]));
        assert(written_view(views[k - 1], ls[k - 1]));
        lemma_image_read(s, d0 + prev.len(), views[k - 1], ls[k - 1], hd, palette);
        let r = layer_images(s, d0, views, k, hd, palette)->Ok_0.0;
        let rp = layer_images(s, d0, views, (k - 1) as nat, hd, palette)->Ok_0.0;
        assert forall|i: int| 0 <= i < k implies #[trigger] r[i] == ls[i].rgba@ by {
            if i < k - 1 {
                assert(r[i] == rp[i]);
            }
        }
    }
}

/// What reading back the layer section of a written document gives.
pub open spec fn section_read_back(r: (Seq<RecordView>, Seq<Seq<u8>>, int), ls: Seq<PsdLayer>) -> bool {
    &&& r.0.len() == ls.len()
    &&& r.1.len() == ls.len()
    &&& forall|i: int| 0 <= i < ls.len() ==> #[trigger] written_view(r.0[i], ls[i])
    &&& forall|i: int| 0 <= i < ls.len() ==> #[trigger] r.1[i] == ls[i].rgba@
}

#[verifier::rlimit(30)]
pub proof fn lemma_section_read(s: Seq<u8>, p: int, ls: Seq<PsdLayer>, hd: PsdHeader, palette: Seq<u8>)
    requires
        at(s, p, enc_u32(section_body(ls).len() as int) + section_body(ls)),
        section_body(ls).len() <= u32::MAX,
        p + 4 + section_body(ls).len() <= usize::MAX,
        ls.len() <= 32767,
        forall|i: int| 0 <= i < ls.len() ==> #[trigger] plain_layer(ls[i]),
        hd.version == 1,
        hd.depth == 8,
        hd.color_mode == ColorMode::Rgb,
    ensures
        layer_section(s, p, hd, palette) is Ok,
        layer_section(s, p, hd, palette)->Ok_0.2 == p + 4 + section_body(ls).len(),
        section_read_back(layer_section(s, p, hd, palette)->Ok_0, ls),
{
    let b = section_body(ls);
    let li = layer_info(ls);
    let n = ls.len();
    let rb = records_bytes(ls, n);
    let db = data_bytes(ls, n);
    lemma_at_split(s, p, enc_u32(b.len() as int), b);
    lemma_read_u32(s, p, b.len() as int);
    lemma_at_split(s, p + 4, enc_u32(li.len() as int) + li, enc_u32(0));
    lemma_at_split(s, p + 4, enc_u32(li.len() as int), li);
    lemma_read_u32(s, p + 4, li.len() as int);
    lemma_at_split(s, p + 8, enc_u16(n as int) + rb, db);
    lemma_at_split(s, p + 8, enc_u16(n as int), rb);
    lemma_read_u16(s, p + 8, n as int);
    assert(be_i16(s, p + 8) == n);
    assert(layer_count(be_i16(s, p + 8)) == n);
    lemma_records_read(s, p + 10, ls, n, hd.width as int, hd.height as int);
    let recs = records_spec(s, p + 10, n, 1, hd.width as int, hd.height as int)->Ok_0.0;
    lemma_images_read(s, p + 10 + rb.len(), recs, ls, n, hd, palette);
    assert(len_width(1) == 4);
    assert(layer_body(s, p + 8, hd, palette) is Ok);
}

#[verifier::rlimit(30)]
pub proof fn lemma_composite_read(s: Seq<u8>, c0: int, comp: Seq<u8>, hd: PsdHeader, palette: Seq<u8>)
    requires
        at(
            s,
            c0,
            enc_u16(0) + plane_bytes(comp, hd.width as int * hd.height as int, 0) + plane_bytes(
                comp,
                hd.width as int * hd.height as int,
                1,
            ) + plane_bytes(comp, hd.width as int * hd.height as int, 2),
        ),
        4 * (hd.width as int * hd.height as int) <= comp.len(),
        hd.width as int * hd.height as int * 4 <= usize::MAX,
        hd.channels == 3,
        hd.depth == 8,
        hd.color_mode == ColorMode::Rgb,
    ensures
        composite_spec(s, c0, hd, palette) == Ok::<Seq<u8>, PsdError>(
            flatten(
                Seq::new(
                    (hd.width as int * hd.height as int) as nat,
                    |i: int| (comp[4 * i], comp[4 * i + 1], comp[4 * i + 2], 255u8),
                ),
            ),
        ),
{
    let n = hd.width as int * hd.height as int;
    let p0 = plane_bytes(comp, n, 0);
    let p1 = plane_bytes(comp, n, 1);
    let p2 = plane_bytes(comp, n, 2);
    lemma_at_split(s, c0, enc_u16(0) + p0 + p1, p2);
    lemma_at_split(s, c0, enc_u16(0) + p0, p1);
    lemma_at_split(s, c0, enc_u16(0), p0);
    lemma_read_u16(s, c0, 0);
    assert(n >= 0) by (nonlinear_arith)
        requires
            n == hd.width as int * hd.height as int,
    ;
    let flat = s.subrange(c0 + 2, c0 + 2 + 3 * n);
    assert(crate::channel::sample_bytes(hd.depth as int) == 1);
    assert(composite_data(s, c0, hd) == Ok::<Option<Seq<u8>>, PsdError>(Some(flat)));
    let px = Seq::new(n as nat, |i: int| composite_pixel(hd.color_mode, flat, 3, n, palette, i));
    let want = Seq::new(n as nat, |i: int| (comp[4 * i], comp[4 * i + 1], comp[4 * i + 2], 255u8));
    assert forall|i: int| 0 <= i < n implies #[trigger] px[i] == want[i] by {
        lemma_at_index(s, c0 + 2, p0, i);
        lemma_at_index(s, c0 + 2 + n, p1, i);
        lemma_at_index(s, c0 + 2 + 2 * n, p2, i);
        assert(flat_sample(flat, 3, n, 0, i, 255) == comp[4 * i]);
        assert(flat_sample(flat, 3, n, 1, i, 255) == comp[4 * i + 1]);
        assert(flat_sample(flat, 3, n, 2, i, 255) == comp[4 * i + 2]);
        assert(flat_sample(flat, 3, n, 3, i, 255) == 255);
    }
    assert(px =~= want);
}

/// The fixed header that the encoder writes.
pub open spec fn written_header(width: u32, height: u32) -> Seq<u8> {
    seq![0x38u8, 0x42u8, 0x50u8, 0x53u8] + enc_u16(1) + zeros(6) + enc_u16(3) + enc_u32(height as int)
        + enc_u32(width as int) + enc_u16(8) + enc_u16(3)
}

proof fn lemma_header_read(s: Seq<u8>, width: u32, height: u32)
    requires
        at(s, 0, written_header(width, height)),
    ensures
        header_spec(s, 0) == Ok::<PsdHeader, PsdError>(
            PsdHeader {
                version: 1,
                channels: 3,
                height,
                width,
                depth: 8,
                color_mode: ColorMode::Rgb,
            },
        ),
{
    let m = seq![0x38u8, 0x42u8, 0x50u8, 0x53u8];
    let a1 = m + enc_u16(1);
    let a2 = a1 + zeros(6);
    let a3 = a2 + enc_u16(3);
    let a4 = a3 + enc_u32(height as int);
    let a5 = a4 + enc_u32(width as int);
    let a6 = a5 + enc_u16(8);
    lemma_at_split(s, 0, a6, enc_u16(3));
    lemma_at_split(s, 0, a5, enc_u16(8));
    lemma_at_split(s, 0, a4, enc_u32(width as int));
    lemma_at_split(s, 0, a3, enc_u32(height as int));
    lemma_at_split(s, 0, a2, enc_u16(3));
    lemma_at_split(s, 0, a1, zeros(6));
    lemma_at_split(s, 0, m, enc_u16(1));
    assert(s.subrange(0, 4) == magic());
    assert(has_magic(s, 0));
    lemma_read_u16(s, 4, 1);
    lemma_read_u16(s, 12, 3);
    lemma_read_u32(s, 14, height as int);
    lemma_read_u32(s, 18, width as int);
    lemma_read_u16(s, 22, 8);
    lemma_read_u16(s, 24, 3);
}

/// Decoding what the encoder wrote for a document of plain layers (pixel
/// layers whose stored size matches their bounds and whose buffers hold
/// exactly their pixels) succeeds, and gives back the canvas size, one layer
/// for each written layer with its bounds, blend mode, opacity, visibility and
/// RGBA bytes, and the composite's colour at full opacity.
#[verifier::rlimit(30)]
pub proof fn lemma_round_trip(psd: Psd)
    requires
        writable(psd),
        forall|i: int| 0 <= i < psd.layers@.len() ==> #[trigger] plain_layer(psd.layers@[i]),
        document_bytes(psd).len() <= usize::MAX,
        psd.width as int * psd.height as int * 4 <= usize::MAX,
    ensures
        document_spec(document_bytes(psd), 0) is Ok,
        document_spec(document_bytes(psd), 0)->Ok_0.header.width == psd.width,
        document_spec(document_bytes(psd), 0)->Ok_0.header.height == psd.height,
        document_spec(document_bytes(psd), 0)->Ok_0.header.color_mode == ColorMode::Rgb,
        document_spec(document_bytes(psd), 0)->Ok_0.records.len() == psd.layers@.len(),
        document_spec(document_bytes(psd), 0)->Ok_0.images.len() == psd.layers@.len(),
        forall|i: int|
            0 <= i < psd.layers@.len() ==> #[trigger] written_view(
                document_spec(document_bytes(psd), 0)->Ok_0.records[i],
                psd.layers@[i],
            ),
        forall|i: int|
            0 <= i < psd.layers@.len() ==> #[trigger] document_spec(document_bytes(psd), 0)->Ok_0.images[i]
                == psd.layers@[i].rgba@,
        document_spec(document_bytes(psd), 0)->Ok_0.composite == flatten(
            Seq::new(
                (psd.width as int * psd.height as int) as nat,
                |i: int|
                    (
                        psd.composite_rgba@[4 * i],
                        psd.composite_rgba@[4 * i + 1],
                        psd.composite_rgba@[4 * i + 2],
                        255u8,
                    ),
            ),
        ),
{
    let s = document_bytes(psd);
    let n = psd.width as int * psd.height as int;
    let c = psd.composite_rgba@;
    let b = section_body(psd.layers@);
    let q3: int = 66 + b.len() as int;
    lemma_document_pieces(psd);
    lemma_header_read(s, psd.width, psd.height);
    let hd = PsdHeader {
        version: 1,
        channels: 3,
        height: psd.height,
        width: psd.width,
        depth: 8,
        color_mode: ColorMode::Rgb,
    };
    lemma_read_u32(s, 26, 0);
    assert(palette_spec(s, 26, hd) == Ok::<(Seq<u8>, int), PsdError>((Seq::empty(), 30)));
    lemma_at_split(s, 30, enc_u32(resolution_resource().len() as int), resolution_resource());
    lemma_read_u32(s, 30, resolution_resource().len() as int);
    assert(resources_end(s, 30) == Ok::<int, PsdError>(62));
    lemma_section_read(s, 62, psd.layers@, hd, Seq::empty());
    lemma_composite_read(s, q3, c, hd, Seq::empty());
    let sec_r = layer_section(s, 62, hd, Seq::empty())->Ok_0;
    let comp_r = composite_spec(s, q3, hd, Seq::empty())->Ok_0;
    assert(document_spec(s, 0) == Ok::<DocView, PsdError>(
        DocView {
            header: hd,
            palette: Seq::empty(),
            records: sec_r.0,
            images: sec_r.1,
            composite: comp_r,
        },
    ));
}

#[verifier::rlimit(30)]
proof fn lemma_document_pieces(psd: Psd)
    ensures
        ({
            let s = document_bytes(psd);
            let n = psd.width as int * psd.height as int;
            let c = psd.composite_rgba@;
            let b = section_body(psd.layers@);
            &&& at(s, 0, written_header(psd.width, psd.height))
            &&& at(s, 26, enc_u32(0))
            &&& at(s, 30, enc_u32(resolution_resource().len() as int) + resolution_resource())
            &&& at(s, 62, enc_u32(b.len() as int) + b)
            &&& at(
                s,
                66 + b.len() as int,
                enc_u16(0) + plane_bytes(c, n, 0) + plane_bytes(c, n, 1) + plane_bytes(c, n, 2),
            )
        }),
{
    let s = document_bytes(psd);
    let n = psd.width as int * psd.height as int;
    let c = psd.composite_rgba@;
    let hdr = written_header(psd.width, psd.height);
    let res = enc_u32(resolution_resource().len() as int) + resolution_resource();
    let b = section_body(psd.layers@);
    let sec = enc_u32(b.len() as int) + b;
    let comp = enc_u16(0) + plane_bytes(c, n, 0) + plane_bytes(c, n, 1) + plane_bytes(c, n, 2);
    reveal(document_bytes);
    assert(s =~= hdr + enc_u32(0) + res + sec + comp);
    assert(s.subrange(0, s.len() as int) =~= s);
    assert(at(s, 0, s));
    lemma_at_split(s, 0, hdr + enc_u32(0) + res + sec, comp);
    lemma_at_split(s, 0, hdr + enc_u32(0) + res, sec);
    lemma_at_split(s, 0, hdr + enc_u32(0), res);
    lemma_at_split(s, 0, hdr, enc_u32(0));
}

} // verus!






