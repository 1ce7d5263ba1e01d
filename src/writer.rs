//! The encoder: a minimal version-1, 8-bit RGB document with raw channels.
//!
//! It writes what a simplified document holds (flat layers, already in
//! straight RGBA) and nothing more: no compression, masks, text or non-RGB data.

use vstd::prelude::*;
use vstd::utf8::encode_utf8;
use crate::blend::{blend_key, blend_key_bytes};
use crate::bytes::{enc_i32, enc_u16, enc_u32, push_all, push_i32, push_u16, push_u32};
use crate::info::pad4;
use crate::model::{Psd, PsdError, PsdLayer, PsdLayerType};
use crate::text::{encode_utf16, utf16_units};

verus! {

/// `n` zero bytes.
pub open spec fn zeros(n: int) -> Seq<u8> {
    Seq::new(n as nat, |_k: int| 0u8)
}

/// The "8BIM" signature.
pub open spec fn bim() -> Seq<u8> {
    seq![0x38u8, 0x42u8, 0x49u8, 0x4du8]
}

/// A Pascal string of at most 255 bytes of `b`, padded with zeros so that it
/// fills a multiple of 4 bytes.
pub open spec fn pascal_name(b: Seq<u8>) -> Seq<u8> {
    let n = if b.len() <= 255 { b.len() as int } else { 255 };
    seq![n as u8] + b.subrange(0, n) + zeros(pad4(n + 1) - (n + 1))
}

/// UTF-16 code units as big-endian bytes.
pub open spec fn units_bytes(u: Seq<u16>) -> Seq<u8> {
    Seq::new(
        2 * u.len(),
        |k: int| if k % 2 == 0 { (u[k / 2] / 256) as u8 } else { (u[k / 2] % 256) as u8 },
    )
}

/// The body of a `luni` record, padded to a multiple of 4 bytes: unit count,
/// then the units.
pub open spec fn luni_body(name: Seq<char>) -> Seq<u8> {
    let u = utf16_units(name);
    let body = enc_u32(u.len() as int) + units_bytes(u);
    body + zeros(pad4(body.len() as int) - body.len())
}

/// The `luni` record that carries a layer name in UTF-16.
pub open spec fn luni_record(name: Seq<char>) -> Seq<u8> {
    bim() + seq![0x6cu8, 0x75u8, 0x6eu8, 0x69u8] + enc_u32(luni_body(name).len() as int) + luni_body(name)
}

/// The section-divider code of a layer type.
pub open spec fn divider_code(t: PsdLayerType) -> int {
    match t {
        PsdLayerType::Normal => 0,
        PsdLayerType::FolderOpen => 1,
        PsdLayerType::FolderClosed => 2,
        PsdLayerType::SectionDivider => 3,
    }
}

/// The `lsct` record of a group boundary.
pub open spec fn lsct_record(t: PsdLayerType) -> Seq<u8> {
    bim() + seq![0x6cu8, 0x73u8, 0x63u8, 0x74u8] + enc_u32(4) + enc_u32(divider_code(t))
}

/// The extra data of a layer record: empty mask and blending ranges, the
/// Pascal name, a `luni` record where the name is not empty, and an `lsct`
/// record for group boundaries.
#[verifier::opaque]
pub open spec fn extra_bytes(l: PsdLayer) -> Seq<u8> {
    enc_u32(0) + enc_u32(0) + pascal_name(encode_utf8(l.name@)) + (if l.name@.len() > 0 {
        luni_record(l.name@)
    } else {
        Seq::empty()
    }) + (if l.layer_type != PsdLayerType::Normal {
        lsct_record(l.layer_type)
    } else {
        Seq::empty()
    })
}

/// Pixels in a layer, by its stored size.
pub open spec fn pixel_count(l: PsdLayer) -> int {
    l.width as int * l.height as int
}

/// The channel table of a layer: R, G, B and alpha (id 0xFFFF, that is -1),
/// each of `pixels + 2` bytes, for pixel layers; none for group boundaries.
pub open spec fn channel_entries(l: PsdLayer) -> Seq<u8> {
    if l.layer_type == PsdLayerType::Normal {
        let e = enc_u32(pixel_count(l) + 2);
        enc_u16(0) + e + enc_u16(1) + e + enc_u16(2) + e + enc_u16(0xffff) + e
    } else {
        Seq::empty()
    }
}

/// The visibility flags byte: bit 1 set for a hidden layer.
pub open spec fn flags_byte(visible: bool) -> u8 {
    if visible { 0 } else { 2 }
}

/// The start of a layer record: bounds, channel count and channel table.
pub open spec fn record_front(l: PsdLayer) -> Seq<u8> {
    enc_i32(l.top as int) + enc_i32(l.left as int) + enc_i32(l.bottom as int) + enc_i32(l.right as int)
        + enc_u16(if l.layer_type == PsdLayerType::Normal { 4 } else { 0 }) + channel_entries(l)
}

/// The middle of a layer record: signature, blend key, opacity, clipping,
/// flags, filler and the extra-data length.
pub open spec fn record_back(l: PsdLayer) -> Seq<u8> {
    bim() + blend_key(l.blend_mode) + seq![l.opacity, 0u8, flags_byte(l.visible), 0u8] + enc_u32(
        extra_bytes(l).len() as int,
    )
}

/// A layer record.
#[verifier::opaque]
pub open spec fn record_bytes(l: PsdLayer) -> Seq<u8> {
    record_front(l) + record_back(l) + extra_bytes(l)
}

/// Component `c` of the first `n` pixels of an RGBA buffer.
pub open spec fn plane_bytes(rgba: Seq<u8>, n: int, c: int) -> Seq<u8> {
    Seq::new(n as nat, |i: int| rgba[4 * i + c])
}

/// The raw channel data of a layer: R, G, B, A planes, each after a zero
/// compression tag; none for group boundaries.
pub open spec fn layer_data(l: PsdLayer) -> Seq<u8> {
    if l.layer_type == PsdLayerType::Normal {
        let n = pixel_count(l);
        enc_u16(0) + plane_bytes(l.rgba@, n, 0) + enc_u16(0) + plane_bytes(l.rgba@, n, 1) + enc_u16(0)
            + plane_bytes(l.rgba@, n, 2) + enc_u16(0) + plane_bytes(l.rgba@, n, 3)
    } else {
        Seq::empty()
    }
}

/// The records of the first `k` layers.
pub open spec fn records_bytes(ls: Seq<PsdLayer>, k: nat) -> Seq<u8>
    decreases k,
{
    if k == 0 || k > ls.len() {
        Seq::empty()
    } else {
        records_bytes(ls, (k - 1) as nat) + record_bytes(ls[k - 1])
    }
}

/// The channel data of the first `k` layers.
pub open spec fn data_bytes(ls: Seq<PsdLayer>, k: nat) -> Seq<u8>
    decreases k,
{
    if k == 0 || k > ls.len() {
        Seq::empty()
    } else {
        data_bytes(ls, (k - 1) as nat) + layer_data(ls[k - 1])
    }
}

/// The layer info: count, records, channel data.
pub open spec fn layer_info(ls: Seq<PsdLayer>) -> Seq<u8> {
    enc_u16(ls.len() as int) + records_bytes(ls, ls.len()) + data_bytes(ls, ls.len())
}

/// The body of the layer-and-mask section: layer info with its length, then an
/// empty global mask block.
pub open spec fn section_body(ls: Seq<PsdLayer>) -> Seq<u8> {
    enc_u32(layer_info(ls).len() as int) + layer_info(ls) + enc_u32(0)
}

/// The resolution resource: 72 dpi both ways.
pub open spec fn resolution_resource() -> Seq<u8> {
    bim() + enc_u16(1005) + enc_u16(0) + enc_u32(16) + enc_u16(72) + enc_u16(0) + enc_u16(1) + enc_u16(1)
        + enc_u16(72) + enc_u16(0) + enc_u16(1) + enc_u16(1)
}

/// Whether one layer can be written: pixel layers have enough RGBA bytes and
/// a channel length that fits in 32 bits, and the extra data fits too.
pub open spec fn layer_writable(l: PsdLayer) -> bool {
    &&& (l.layer_type == PsdLayerType::Normal ==> pixel_count(l) * 4 <= l.rgba@.len() && pixel_count(l)
        + 2 <= u32::MAX)
    &&& extra_bytes(l).len() <= u32::MAX
}

/// Whether a document can be written: at most 32767 layers, each writable, a
/// composite of at least `width * height` pixels, and section lengths that fit
/// in 32 bits.
pub open spec fn writable(psd: Psd) -> bool {
    &&& psd.layers@.len() <= 32767
    &&& forall|i: int| 0 <= i < psd.layers@.len() ==> #[trigger] layer_writable(psd.layers@[i])
    &&& psd.width as int * psd.height as int * 4 <= psd.composite_rgba@.len()
    &&& section_body(psd.layers@).len() <= u32::MAX
}

/// The bytes of an encoded document.
#[verifier::opaque]
pub open spec fn document_bytes(psd: Psd) -> Seq<u8> {
    let n = psd.width as int * psd.height as int;
    seq![0x38u8, 0x42u8, 0x50u8, 0x53u8] + enc_u16(1) + zeros(6) + enc_u16(3) + enc_u32(psd.height as int)
        + enc_u32(psd.width as int) + enc_u16(8) + enc_u16(3) + enc_u32(0) + enc_u32(
        resolution_resource().len() as int,
    ) + resolution_resource() + enc_u32(section_body(psd.layers@).len() as int) + section_body(
        psd.layers@,
    ) + enc_u16(0) + plane_bytes(psd.composite_rgba@, n, 0) + plane_bytes(psd.composite_rgba@, n, 1)
        + plane_bytes(psd.composite_rgba@, n, 2)
}

/// Encoder over a borrowed document.
pub struct PsdWriter<'a> {
    psd: &'a Psd,
}

fn push_plane(out: &mut Vec<u8>, rgba: &Vec<u8>, n: usize, c: usize)
    requires
        c < 4,
        4 * n <= rgba@.len(),
    ensures
        final(out)@ == old(out)@ + plane_bytes(rgba@, n as int, c as int),
{
    let total = rgba.len();
    let mut i: usize = 0;
    while i < n
        invariant
            total == rgba@.len(),
            c < 4,
            4 * n <= rgba@.len(),
            i <= n,
            out@ == old(out)@ + plane_bytes(rgba@, n as int, c as int).subrange(0, i as int),
        decreases n - i,
    {
        out.push(rgba[4 * i + c]);
        i = i + 1;
        assert(out@ =~= old(out)@ + plane_bytes(rgba@, n as int, c as int).subrange(0, i as int));
    }
    assert(plane_bytes(rgba@, n as int, c as int).subrange(0, n as int) =~= plane_bytes(
        rgba@,
        n as int,
        c as int,
    ));
}

fn pad_zeros(out: &mut Vec<u8>, k: usize)
    ensures
        final(out)@ == old(out)@ + zeros(k as int),
{
    let mut i: usize = 0;
    while i < k
        invariant
            i <= k,
            out@ == old(out)@ + zeros(i as int),
        decreases k - i,
    {
        out.push(0u8);
        i = i + 1;
        assert(out@ =~= old(out)@ + zeros(i as int));
    }
}

fn luni_body_bytes(name: &str, units: Vec<u16>) -> (r: Vec<u8>)
    requires
        units@ == utf16_units(name@),
        units@.len() <= u32::MAX,
    ensures
        r@ == luni_body(name@),
{
    let mut body: Vec<u8> = Vec::new();
    push_u32(&mut body, units.len() as u32);
    let ghost head = body@;
    let mut i: usize = 0;
    while i < units.len()
        invariant
            i <= units@.len(),
            body@ == head + units_bytes(units@).subrange(0, 2 * i as int),
        decreases units@.len() - i,
    {
        body.push((units[i] / 256) as u8);
        body.push((units[i] % 256) as u8);
        i = i + 1;
        assert(body@ =~= head + units_bytes(units@).subrange(0, 2 * i as int));
    }
    assert(units_bytes(units@).subrange(0, 2 * units@.len() as int) =~= units_bytes(units@));
    let pad = (4 - body.len() % 4) % 4;
    assert(pad == pad4(body@.len() as int) - body@.len());
    pad_zeros(&mut body, pad);
    body
}

fn pascal_name_bytes(nb: &[u8]) -> (r: Vec<u8>)
    ensures
        r@ == pascal_name(nb@),
{
    let mut ex: Vec<u8> = Vec::new();
    let n_l: usize = if nb.len() <= 255 { nb.len() } else { 255 };
    ex.push(n_l as u8);
    push_all(&mut ex, vstd::slice::slice_subrange(nb, 0, n_l));
    pad_zeros(&mut ex, (n_l + 1 + 3) / 4 * 4 - (n_l + 1));
    assert(ex@ =~= pascal_name(nb@));
    ex
}

/// The `luni` record of a name; `None` where it is longer than 2^32 - 1 bytes.
#[verifier::rlimit(30)]
fn luni_bytes(name: &str) -> (r: Option<Vec<u8>>)
    ensures
        match r {
            Some(v) => v@ == luni_record(name@),
            None => luni_record(name@).len() > u32::MAX,
        },
{
    let units = encode_utf16(name);
    if units.len() > u32::MAX as usize {
        assert(luni_body(name@).len() >= 2 * units@.len());
        return None;
    }
    let body = luni_body_bytes(name, units);
    if body.len() > u32::MAX as usize - 12 {
        return None;
    }
    let mut ex: Vec<u8> = Vec::new();
    push_all(&mut ex, &[0x38u8, 0x42u8, 0x49u8, 0x4du8, 0x6cu8, 0x75u8, 0x6eu8, 0x69u8]);
    push_u32(&mut ex, body.len() as u32);
    push_all(&mut ex, body.as_slice());
    assert(ex@ =~= luni_record(name@));
    Some(ex)
}

fn lsct_bytes(t: PsdLayerType) -> (r: Vec<u8>)
    ensures
        r@ == lsct_record(t),
{
    let code: u32 = match t {
        PsdLayerType::Normal => 0,
        PsdLayerType::FolderOpen => 1,
        PsdLayerType::FolderClosed => 2,
        PsdLayerType::SectionDivider => 3,
    };
    let mut ex: Vec<u8> = Vec::new();
    push_all(&mut ex, &[0x38u8, 0x42u8, 0x49u8, 0x4du8, 0x6cu8, 0x73u8, 0x63u8, 0x74u8]);
    push_u32(&mut ex, 4);
    push_u32(&mut ex, code);
    assert(ex@ =~= lsct_record(t));
    ex
}

/// The extra data of a layer record; `None` where it cannot fit in a 32-bit
/// length.
#[verifier::rlimit(30)]
fn extra_data(l: &PsdLayer) -> (r: Option<Vec<u8>>)
    ensures
        match r {
            Some(v) => v@ == extra_bytes(*l) && v@.len() <= u32::MAX,
            None => extra_bytes(*l).len() > u32::MAX,
        },
{
    reveal(extra_bytes);
    let mut ex: Vec<u8> = Vec::new();
    push_u32(&mut ex, 0);
    push_u32(&mut ex, 0);
    let name = l.name.as_str();
    let pascal = pascal_name_bytes(name.as_bytes());
    push_all(&mut ex, pascal.as_slice());
    if !name.is_empty() {
        match luni_bytes(name) {
            Some(v) => {
                push_all(&mut ex, v.as_slice());
            },
            None => {
                return None;
            },
        }
    }
    if l.layer_type != PsdLayerType::Normal {
        let v = lsct_bytes(l.layer_type);
        push_all(&mut ex, v.as_slice());
    }
    assert(ex@ =~= extra_bytes(*l));
    if ex.len() > u32::MAX as usize {
        return None;
    }
    Some(ex)
}

fn push_layer_planes(data: &mut Vec<u8>, l: &PsdLayer, n: usize)
    requires
        l.layer_type == PsdLayerType::Normal,
        n == pixel_count(*l),
        4 * n <= l.rgba@.len(),
    ensures
        final(data)@ == old(data)@ + layer_data(*l),
{
    push_u16(data, 0);
    push_plane(data, &l.rgba, n, 0);
    push_u16(data, 0);
    push_plane(data, &l.rgba, n, 1);
    push_u16(data, 0);
    push_plane(data, &l.rgba, n, 2);
    push_u16(data, 0);
    push_plane(data, &l.rgba, n, 3);
    assert(final(data)@ =~= old(data)@ + layer_data(*l));
}

fn push_channel_entries(info: &mut Vec<u8>, l: &PsdLayer, pc: u64)
    requires
        pc == pixel_count(*l),
        l.layer_type == PsdLayerType::Normal ==> pc + 2 <= u32::MAX,
    ensures
        final(info)@ == old(info)@ + enc_u16(if l.layer_type == PsdLayerType::Normal { 4 } else { 0 })
            + channel_entries(*l),
{
    if l.layer_type == PsdLayerType::Normal {
        push_u16(info, 4);
        let len = (pc + 2) as u32;
        push_u16(info, 0);
        push_u32(info, len);
        push_u16(info, 1);
        push_u32(info, len);
        push_u16(info, 2);
        push_u32(info, len);
        push_u16(info, 0xffff);
        push_u32(info, len);
    } else {
        push_u16(info, 0);
    }
    assert(final(info)@ =~= old(info)@ + enc_u16(if l.layer_type == PsdLayerType::Normal { 4 } else { 0 })
        + channel_entries(*l));
}

#[verifier::rlimit(30)]
fn push_record(info: &mut Vec<u8>, l: &PsdLayer, pc: u64, extra: &Vec<u8>)
    requires
        pc == pixel_count(*l),
        l.layer_type == PsdLayerType::Normal ==> pc + 2 <= u32::MAX,
        extra@ == extra_bytes(*l),
        extra@.len() <= u32::MAX,
    ensures
        final(info)@ == old(info)@ + record_bytes(*l),
{
    reveal(record_bytes);
    let mut rec: Vec<u8> = Vec::new();
    push_i32(&mut rec, l.top);
    push_i32(&mut rec, l.left);
    push_i32(&mut rec, l.bottom);
    push_i32(&mut rec, l.right);
    push_channel_entries(&mut rec, l, pc);
    assert(rec@ =~= record_front(*l));
    let mut back: Vec<u8> = Vec::new();
    push_all(&mut back, &[0x38u8, 0x42u8, 0x49u8, 0x4du8]);
    let key = blend_key_bytes(l.blend_mode);
    push_all(&mut back, &key);
    back.push(l.opacity);
    back.push(0u8);
    back.push(if l.visible { 0u8 } else { 2u8 });
    back.push(0u8);
    push_u32(&mut back, extra.len() as u32);
    assert(back@ =~= record_back(*l));
    push_all(&mut rec, back.as_slice());
    push_all(&mut rec, extra.as_slice());
    push_all(info, rec.as_slice());
}

/// Appends the record and the channel data of one layer; `false`, with
/// nothing appended, where the layer cannot be written.
fn write_layer(l: &PsdLayer, info: &mut Vec<u8>, data: &mut Vec<u8>) -> (r: bool)
    ensures
        r == layer_writable(*l),
        r ==> final(info)@ == old(info)@ + record_bytes(*l),
        r ==> final(data)@ == old(data)@ + layer_data(*l),
{
    let normal = l.layer_type == PsdLayerType::Normal;
    assert(l.width as int * l.height as int <= 0xffff_ffff * 0xffff_ffff) by (nonlinear_arith)
        requires
            l.width <= 0xffff_ffff,
            l.height <= 0xffff_ffff,
    ;
    let pc: u64 = l.width as u64 * l.height as u64;
    if normal && (pc > u32::MAX as u64 - 2 || pc > (l.rgba.len() / 4) as u64) {
        return false;
    }
    let extra = match extra_data(l) {
        Some(v) => v,
        None => {
            return false;
        },
    };
    push_record(info, l, pc, &extra);
    if normal {
        push_layer_planes(data, l, pc as usize);
    } else {
        assert(data@ =~= old(data)@ + layer_data(*l));
    }
    true
}

fn push_header(out: &mut Vec<u8>, width: u32, height: u32)
    ensures
        final(out)@ == old(out)@ + (seq![0x38u8, 0x42u8, 0x50u8, 0x53u8] + enc_u16(1) + zeros(6) + enc_u16(3)
            + enc_u32(height as int) + enc_u32(width as int) + enc_u16(8) + enc_u16(3) + enc_u32(0)
            + enc_u32(resolution_resource().len() as int) + resolution_resource()),
{
    let mut h: Vec<u8> = Vec::new();
    push_all(&mut h, &[0x38u8, 0x42u8, 0x50u8, 0x53u8]);
    push_u16(&mut h, 1);
    pad_zeros(&mut h, 6);
    push_u16(&mut h, 3);
    push_u32(&mut h, height);
    push_u32(&mut h, width);
    push_u16(&mut h, 8);
    push_u16(&mut h, 3);
    push_u32(&mut h, 0);
    let ghost s1 = seq![0x38u8, 0x42u8, 0x50u8, 0x53u8] + enc_u16(1) + zeros(6) + enc_u16(3) + enc_u32(
        height as int,
    ) + enc_u32(width as int) + enc_u16(8) + enc_u16(3) + enc_u32(0);
    assert(h@ =~= s1);
    push_u32(&mut h, 28);
    let mut res: Vec<u8> = Vec::new();
    push_all(&mut res, &[0x38u8, 0x42u8, 0x49u8, 0x4du8]);
    push_u16(&mut res, 1005);
    push_u16(&mut res, 0);
    push_u32(&mut res, 16);
    push_u16(&mut res, 72);
    push_u16(&mut res, 0);
    push_u16(&mut res, 1);
    push_u16(&mut res, 1);
    push_u16(&mut res, 72);
    push_u16(&mut res, 0);
    push_u16(&mut res, 1);
    push_u16(&mut res, 1);
    assert(res@ =~= resolution_resource());
    push_all(&mut h, res.as_slice());
    assert(h@ =~= s1 + enc_u32(resolution_resource().len() as int) + resolution_resource());
    push_all(out, h.as_slice());
}

impl<'a> PsdWriter<'a> {
    /// The document that the writer encodes.
    pub closed spec fn document(&self) -> Psd {
        *self.psd
    }

    /// A writer for `psd`.
    pub fn new(psd: &'a Psd) -> (r: Self)
        ensures
            r.document() == *psd,
    {
        PsdWriter { psd }
    }

    /// Encodes the document. Fails with `InvalidLayerData` exactly where the
    /// document is not `writable`: too many layers, RGBA buffers shorter than
    /// their pixel counts, or lengths beyond 32 bits.
    #[verifier::rlimit(30)]
    pub fn write(&mut self) -> (r: Result<Vec<u8>, PsdError>)
        ensures
            match r {
                Ok(v) => writable(old(self).document()) && v@ == document_bytes(old(self).document()),
                Err(e) => !writable(old(self).document()) && e == PsdError::InvalidLayerData,
            },
    {
        let psd = self.psd;
        let ls = &psd.layers;
        let count = ls.len();
        if count > 32767 {
            return Err(PsdError::InvalidLayerData);
        }
        let mut recs: Vec<u8> = Vec::new();
        let mut data: Vec<u8> = Vec::new();
        let mut k: usize = 0;
        while k < count
            invariant
                count == ls@.len(),
                ls@ == old(self).document().layers@,
                k <= count,
                recs@ == records_bytes(ls@, k as nat),
                data@ == data_bytes(ls@, k as nat),
                forall|i: int| 0 <= i < k ==> #[trigger] layer_writable(ls@[i]),
            decreases count - k,
        {
            if !write_layer(&ls[k], &mut recs, &mut data) {
                assert(!layer_writable(ls@[k as int]));
                return Err(PsdError::InvalidLayerData);
            }
            k = k + 1;
        }
        let mut info: Vec<u8> = Vec::new();
        push_u16(&mut info, count as u16);
        push_all(&mut info, recs.as_slice());
        push_all(&mut info, data.as_slice());
        assert(info@ =~= layer_info(ls@));
        if info.len() > u32::MAX as usize - 8 {
            return Err(PsdError::InvalidLayerData);
        }
        let mut body: Vec<u8> = Vec::new();
        push_u32(&mut body, info.len() as u32);
        push_all(&mut body, info.as_slice());
        push_u32(&mut body, 0);
        assert(body@ =~= section_body(ls@));
        assert(psd.width as int * psd.height as int <= 0xffff_ffff * 0xffff_ffff) by (nonlinear_arith)
            requires
                psd.width <= 0xffff_ffff,
                psd.height <= 0xffff_ffff,
        ;
        let n64: u64 = psd.width as u64 * psd.height as u64;
        if n64 > (psd.composite_rgba.len() / 4) as u64 {
            return Err(PsdError::InvalidLayerData);
        }
        let n = n64 as usize;
        let mut out: Vec<u8> = Vec::new();
        push_header(&mut out, psd.width, psd.height);
        push_u32(&mut out, body.len() as u32);
        push_all(&mut out, body.as_slice());
        push_u16(&mut out, 0);
        push_plane(&mut out, &psd.composite_rgba, n, 0);
        push_plane(&mut out, &psd.composite_rgba, n, 1);
        push_plane(&mut out, &psd.composite_rgba, n, 2);
        reveal(document_bytes);
        assert(out@ =~= document_bytes(*psd));
        Ok(out)
    }
}

impl Psd {
    /// Encodes the document; see `PsdWriter::write`.
    pub fn to_bytes(&self) -> (r: Result<Vec<u8>, PsdError>)
        ensures
            match r {
                Ok(v) => writable(*self) && v@ == document_bytes(*self),
                Err(e) => !writable(*self) && e == PsdError::InvalidLayerData,
            },
    {
        let mut writer = PsdWriter::new(self);
        writer.write()
    }
}

} // verus!

