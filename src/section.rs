//! The layer-and-mask section: layer records, then their channel data.

use vstd::prelude::*;
use crate::bytes::be_i16;
use crate::cursor::{fits, PsdParser};
use crate::header::header_wf;
use crate::model::ColorMode;
use crate::info::{len_at, len_width, opt_points, opt_text};
use crate::layers::{records_spec, lemma_records_err, LayerRecord, RecordView};
use crate::model::{PsdError, PsdHeader, PsdLayer};
use crate::channel::lemma_channel_plane_len;
use crate::pixels::{
    assemble_layer, lemma_planes_err, planes_sized, planes_spec, planes_view, plane_dims, rec_height,
    rec_width, layer_rgba,
};

verus! {

/// The RGBA bytes of the layer `r` whose channel data starts at `q`, and the
/// position after that data.
pub open spec fn layer_image(
    s: Seq<u8>,
    q: int,
    r: RecordView,
    h: PsdHeader,
    palette: Seq<u8>,
) -> Result<(Seq<u8>, int), PsdError> {
    if rec_width(r) * rec_height(r) * 4 > usize::MAX {
        Err(PsdError::InvalidLayerData)
    } else {
        match planes_spec(s, q, r, r.channels.len(), h.depth as int) {
            Err(e) => Err(e),
            Ok((pl, q2)) => Ok((layer_rgba(r, pl, h.color_mode, palette), q2)),
        }
    }
}

/// The images of the first `k` layers of `recs`, whose channel data follow
/// one another from `q`.
pub open spec fn layer_images(
    s: Seq<u8>,
    q: int,
    recs: Seq<RecordView>,
    k: nat,
    h: PsdHeader,
    palette: Seq<u8>,
) -> Result<(Seq<Seq<u8>>, int), PsdError>
    decreases k,
{
    if k == 0 {
        Ok((Seq::empty(), q))
    } else {
        match layer_images(s, q, recs, (k - 1) as nat, h, palette) {
            Err(e) => Err(e),
            Ok((imgs, q1)) => match layer_image(s, q1, recs[k - 1], h, palette) {
                Err(e) => Err(e),
                Ok((img, q2)) => Ok((imgs.push(img), q2)),
            },
        }
    }
}

proof fn lemma_images_err(s: Seq<u8>, q: int, recs: Seq<RecordView>, k: nat, m: nat, h: PsdHeader, palette: Seq<u8>)
    requires
        k <= m,
        layer_images(s, q, recs, k, h, palette) is Err,
    ensures
        layer_images(s, q, recs, m, h, palette) == layer_images(s, q, recs, k, h, palette),
    decreases m - k,
{
    if k < m {
        lemma_images_err(s, q, recs, k, (m - 1) as nat, h, palette);
    }
}

/// The number of layer records that a stored count stands for: its absolute
/// value (a negative count only flags the merged alpha channel).
pub open spec fn layer_count(raw: int) -> nat {
    if raw < 0 { (-raw) as nat } else { raw as nat }
}

/// The layer-and-mask section at `p`: the layer records, their RGBA images,
/// and the position at the end of the section.
pub open spec fn layer_section(s: Seq<u8>, p: int, h: PsdHeader, palette: Seq<u8>) -> Result<
    (Seq<RecordView>, Seq<Seq<u8>>, int),
    PsdError,
> {
    let v = h.version as int;
    let lw = len_width(v);
    if !fits(s, p, lw) {
        Err(PsdError::UnexpectedEndOfFile)
    } else if len_at(s, p, v) == 0 {
        Ok((Seq::empty(), Seq::empty(), p + lw))
    } else if p + lw + len_at(s, p, v) > usize::MAX {
        Err(PsdError::UnexpectedEndOfFile)
    } else if !fits(s, p + lw, lw) {
        Err(PsdError::UnexpectedEndOfFile)
    } else if len_at(s, p + lw, v) == 0 {
        Ok((Seq::empty(), Seq::empty(), p + lw + len_at(s, p, v)))
    } else {
        match layer_body(s, p + 2 * lw, h, palette) {
            Err(e) => Err(e),
            Ok((recs, imgs)) => Ok((recs, imgs, p + lw + len_at(s, p, v))),
        }
    }
}

/// The layer count at `c`, the records after it, and their images.
pub open spec fn layer_body(s: Seq<u8>, c: int, h: PsdHeader, palette: Seq<u8>) -> Result<
    (Seq<RecordView>, Seq<Seq<u8>>),
    PsdError,
> {
    if !fits(s, c, 2) {
        Err(PsdError::UnexpectedEndOfFile)
    } else {
        let cnt = layer_count(be_i16(s, c));
        match records_spec(s, c + 2, cnt, h.version as int, h.width as int, h.height as int) {
            Err(e) => Err(e),
            Ok((recs, q)) => match layer_images(s, q, recs, cnt, h, palette) {
                Err(e) => Err(e),
                Ok((imgs, _q2)) => Ok((recs, imgs)),
            },
        }
    }
}

/// The views of a list of records.
pub open spec fn recs_view(v: Seq<LayerRecord>) -> Seq<RecordView> {
    Seq::new(v.len(), |i: int| v[i].view())
}

/// Decoded planes have the sizes that their channels call for.
proof fn lemma_planes_sized(s: Seq<u8>, p: int, r: RecordView, k: nat, depth: int)
    requires
        planes_spec(s, p, r, k, depth) is Ok,
        k <= r.channels.len(),
    ensures
        planes_spec(s, p, r, k, depth)->Ok_0.0.len() == k,
        forall|j: int|
            0 <= j < k ==> #[trigger] planes_spec(s, p, r, k, depth)->Ok_0.0[j].len() == plane_dims(
                r,
                r.channels[j].0,
            ).0 * plane_dims(r, r.channels[j].0).1,
    decreases k,
{
    if k > 0 {
        lemma_planes_sized(s, p, r, (k - 1) as nat, depth);
        let (ps, q) = planes_spec(s, p, r, (k - 1) as nat, depth)->Ok_0;
        let id = r.channels[k - 1].0;
        let (cw, ch) = plane_dims(r, id);
        lemma_channel_plane_len(s, q, cw, ch, r.channels[k - 1].1 as int, depth);
    }
}

/// Whether a decoded layer holds what its record and its image give.
pub open spec fn layer_matches(l: PsdLayer, r: RecordView, rgba: Seq<u8>) -> bool {
    &&& l.name@ == r.info.name
    &&& l.top == r.top
    &&& l.left == r.left
    &&& l.bottom == r.bottom
    &&& l.right == r.right
    &&& l.width as int == rec_width(r)
    &&& l.height as int == rec_height(r)
    &&& l.opacity == r.opacity
    &&& l.visible == r.visible
    &&& l.blend_mode == r.blend_mode
    &&& l.rgba@ == rgba
    &&& l.layer_type == r.info.layer_type
    &&& l.clipping == r.clipping
    &&& l.mask_info == r.mask_info
    &&& opt_text(l.text_data) == r.info.text
    &&& opt_points(l.vector_mask) == r.info.vector_mask
}

/// Whether decoded layers match records and images one for one.
pub open spec fn layers_match(ls: Seq<PsdLayer>, recs: Seq<RecordView>, imgs: Seq<Seq<u8>>) -> bool {
    &&& ls.len() == recs.len()
    &&& ls.len() == imgs.len()
    &&& forall|i: int| 0 <= i < ls.len() ==> #[trigger] layer_matches(ls[i], recs[i], imgs[i])
}

/// A stored count `raw` gives exactly `|raw|` layers, each matched by a record.
pub proof fn lemma_records_count(s: Seq<u8>, p: int, k: nat, version: int, w: int, h: int)
    requires
        records_spec(s, p, k, version, w, h) is Ok,
    ensures
        records_spec(s, p, k, version, w, h)->Ok_0.0.len() == k,
    decreases k,
{
    if k > 0 {
        lemma_records_count(s, p, (k - 1) as nat, version, w, h);
    }
}

/// A section whose layer count is stored as `-n` holds exactly `n` layers.
pub proof fn lemma_negative_count(s: Seq<u8>, p: int, h: PsdHeader, palette: Seq<u8>)
    requires
        h.version == 1 || h.version == 2,
        layer_section(s, p, h, palette) is Ok,
        fits(s, p, 2 * len_width(h.version as int) + 2),
        len_at(s, p, h.version as int) != 0,
        len_at(s, p + len_width(h.version as int), h.version as int) != 0,
        be_i16(s, p + 2 * len_width(h.version as int)) < 0,
    ensures
        layer_section(s, p, h, palette)->Ok_0.0.len() == -be_i16(
            s,
            p + 2 * len_width(h.version as int),
        ),
{
    let lw = len_width(h.version as int);
    let cnt = layer_count(be_i16(s, p + 2 * lw));
    lemma_records_count(s, p + 2 * lw + 2, cnt, h.version as int, h.width as int, h.height as int);
}

impl<'a> PsdParser<'a> {
    /// Decodes the channel data of one layer, which starts at the current
    /// position, into its planes.
    #[verifier::rlimit(30)]
    fn read_layer_planes(&mut self, rec: &LayerRecord, depth: u16) -> (r: Result<Vec<Vec<u8>>, PsdError>)
        ensures
            final(self).input() == old(self).input(),
            match r {
                Ok(pl) => planes_spec(
                    old(self).input(),
                    old(self).position(),
                    rec.view(),
                    rec.channels@.len(),
                    depth as int,
                ) == Ok::<(Seq<Seq<u8>>, int), PsdError>((planes_view(pl@), final(self).position())),
                Err(e) => planes_spec(
                    old(self).input(),
                    old(self).position(),
                    rec.view(),
                    rec.channels@.len(),
                    depth as int,
                ) == Err::<(Seq<Seq<u8>>, int), PsdError>(e),
            },
    {
        let ghost s = self.input();
        let ghost p = self.position();
        let mut planes: Vec<Vec<u8>> = Vec::new();
        let mut j: usize = 0;
        assert(planes_view(planes@) =~= Seq::<Seq<u8>>::empty());
        while j < rec.channels.len()
            invariant
                self.input() == s,
                s == old(self).input(),
                p == old(self).position(),
                j <= rec.channels@.len(),
                planes_spec(s, p, rec.view(), j as nat, depth as int) == Ok::<
                    (Seq<Seq<u8>>, int),
                    PsdError,
                >((planes_view(planes@), self.position())),
            decreases rec.channels@.len() - j,
        {
            let (id, len) = rec.channels[j];
            let (cw, ch): (u64, u64) = match (id == -2, &rec.mask_info) {
                (true, Some(m)) => (
                    if m.right as i64 - m.left as i64 > 0 { (m.right as i64 - m.left as i64) as u64 } else { 0 },
                    if m.bottom as i64 - m.top as i64 > 0 { (m.bottom as i64 - m.top as i64) as u64 } else { 0 },
                ),
                _ => (
                    if rec.right as i64 - rec.left as i64 > 0 { (rec.right as i64 - rec.left as i64) as u64 } else { 0 },
                    if rec.bottom as i64 - rec.top as i64 > 0 { (rec.bottom as i64 - rec.top as i64) as u64 } else { 0 },
                ),
            };
            assert(cw as int == plane_dims(rec.view(), id).0 && ch as int == plane_dims(rec.view(), id).1);
            let here = self.pos();
            proof {
                assert(cw as int * ch as int * 4 <= 0x4_0000_0000_0000_0000) by (nonlinear_arith)
                    requires
                        cw <= 0xffff_ffff,
                        ch <= 0xffff_ffff,
                ;
            }
            if cw as u128 * ch as u128 * 4 > usize::MAX as u128 {
                proof {
                    lemma_planes_err(s, p, rec.view(), (j + 1) as nat, rec.channels@.len(), depth as int);
                }
                return Err(PsdError::InvalidLayerData);
            }
            if here as u64 > usize::MAX as u64 || len > usize::MAX as u64 - here as u64 {
                proof {
                    lemma_planes_err(s, p, rec.view(), (j + 1) as nat, rec.channels@.len(), depth as int);
                }
                return Err(PsdError::UnexpectedEndOfFile);
            }
            let plane = match self.read_channel_data(cw as u32, ch as u32, len, depth) {
                Ok(pl) => pl,
                Err(e) => {
                    proof {
                        lemma_planes_err(s, p, rec.view(), (j + 1) as nat, rec.channels@.len(), depth as int);
                    }
                    return Err(e);
                },
            };
            let ghost before = planes@;
            planes.push(plane);
            proof {
                assert(planes_view(planes@) =~= planes_view(before).push(planes@.last()@));
            }
            j = j + 1;
        }
        Ok(planes)
    }

    /// Reads `count` layer records from the current position.
    #[verifier::rlimit(30)]
    fn read_layer_records(&mut self, count: usize, version: u16, width: u32, height: u32) -> (r:
        Result<Vec<LayerRecord>, PsdError>)
        requires
            version == 1 || version == 2,
        ensures
            final(self).input() == old(self).input(),
            match r {
                Ok(recs) => records_spec(
                    old(self).input(),
                    old(self).position(),
                    count as nat,
                    version as int,
                    width as int,
                    height as int,
                ) == Ok::<(Seq<RecordView>, int), PsdError>((recs_view(recs@), final(self).position())),
                Err(e) => records_spec(
                    old(self).input(),
                    old(self).position(),
                    count as nat,
                    version as int,
                    width as int,
                    height as int,
                ) == Err::<(Seq<RecordView>, int), PsdError>(e),
            },
    {
        let ghost s = self.input();
        let ghost q0 = self.position();
        let mut recs: Vec<LayerRecord> = Vec::new();
        let mut k: usize = 0;
        assert(recs_view(recs@) =~= Seq::<RecordView>::empty());
        while k < count
            invariant
                self.input() == s,
                s == old(self).input(),
                q0 == old(self).position(),
                version == 1 || version == 2,
                k <= count,
                records_spec(s, q0, k as nat, version as int, width as int, height as int) == Ok::<
                    (Seq<RecordView>, int),
                    PsdError,
                >((recs_view(recs@), self.position())),
            decreases count - k,
        {
            let rec = match self.read_layer_record(version, width, height) {
                Ok(rc) => rc,
                Err(e) => {
                    proof {
                        lemma_records_err(s, q0, (k + 1) as nat, count as nat, version as int, width as int, height as int);
                    }
                    return Err(e);
                },
            };
            let ghost before = recs@;
            recs.push(rec);
            assert(recs_view(recs@) =~= recs_view(before).push(recs@.last().view()));
            k = k + 1;
        }
        Ok(recs)
    }

    /// Decodes the channel data of the layer `rec`, which starts at the current
    /// position, into a layer.
    #[verifier::rlimit(30)]
    fn decode_layer(&mut self, rec: LayerRecord, header: &PsdHeader, palette: &[u8]) -> (r: Result<
        PsdLayer,
        PsdError,
    >)
        ensures
            final(self).input() == old(self).input(),
            match r {
                Ok(l) => layer_image(old(self).input(), old(self).position(), rec.view(), *header, palette@)
                    is Ok && layer_matches(
                    l,
                    rec.view(),
                    layer_image(old(self).input(), old(self).position(), rec.view(), *header, palette@)->Ok_0.0,
                ) && final(self).position() == layer_image(
                    old(self).input(),
                    old(self).position(),
                    rec.view(),
                    *header,
                    palette@,
                )->Ok_0.1,
                Err(e) => layer_image(old(self).input(), old(self).position(), rec.view(), *header, palette@)
                    == Err::<(Seq<u8>, int), PsdError>(e),
            },
    {
        let ghost s = self.input();
        let ghost qk = self.position();
        let w: u64 = if rec.right as i64 - rec.left as i64 > 0 { (rec.right as i64 - rec.left as i64) as u64 } else { 0 };
        let h: u64 = if rec.bottom as i64 - rec.top as i64 > 0 { (rec.bottom as i64 - rec.top as i64) as u64 } else { 0 };
        proof {
            assert(w as int * h as int * 4 <= 0x4_0000_0000_0000_0000) by (nonlinear_arith)
                requires
                    w <= 0xffff_ffff,
                    h <= 0xffff_ffff,
            ;
        }
        if w as u128 * h as u128 * 4 > usize::MAX as u128 {
            return Err(PsdError::InvalidLayerData);
        }
        let planes = self.read_layer_planes(&rec, header.depth)?;
        proof {
            lemma_planes_sized(s, qk, rec.view(), rec.channels@.len(), header.depth as int);
        }
        let rgba = assemble_layer(&rec, &planes, header.color_mode, palette);
        Ok(
            PsdLayer {
                name: rec.info.name,
                top: rec.top,
                left: rec.left,
                bottom: rec.bottom,
                right: rec.right,
                width: w as u32,
                height: h as u32,
                opacity: rec.opacity,
                visible: rec.visible,
                blend_mode: rec.blend_mode,
                rgba,
                layer_type: rec.info.layer_type,
                clipping: rec.clipping,
                mask_info: rec.mask_info,
                text_data: rec.info.text_data,
                vector_mask: rec.info.vector_mask,
            },
        )
    }

    /// Decodes the channel data of every layer, stored one after another from
    /// the current position.
    #[verifier::rlimit(30)]
    fn read_layer_images(&mut self, records: Vec<LayerRecord>, header: &PsdHeader, palette: &[u8]) -> (r:
        Result<Vec<PsdLayer>, PsdError>)
        ensures
            final(self).input() == old(self).input(),
            match r {
                Ok(ls) => layer_images(
                    old(self).input(),
                    old(self).position(),
                    recs_view(records@),
                    records@.len(),
                    *header,
                    palette@,
                ) is Ok && layers_match(
                    ls@,
                    recs_view(records@),
                    layer_images(
                        old(self).input(),
                        old(self).position(),
                        recs_view(records@),
                        records@.len(),
                        *header,
                        palette@,
                    )->Ok_0.0,
                ),
                Err(e) => layer_images(
                    old(self).input(),
                    old(self).position(),
                    recs_view(records@),
                    records@.len(),
                    *header,
                    palette@,
                ) == Err::<(Seq<Seq<u8>>, int), PsdError>(e),
            },
    {
        let ghost s = self.input();
        let ghost q1 = self.position();
        let ghost rv = recs_view(records@);
        let count = records.len();
        let mut recs = records;
        let mut rev: Vec<LayerRecord> = Vec::new();
        while recs.len() > 0
            invariant
                recs@.len() + rev@.len() == count,
                rv.len() == count,
                forall|i: int| 0 <= i < recs@.len() ==> #[trigger] recs@[i].view() == rv[i],
                forall|i: int| 0 <= i < rev@.len() ==> #[trigger] rev@[i].view() == rv[count - 1 - i],
            decreases recs@.len(),
        {
            let rec = recs.pop().unwrap();
            rev.push(rec);
        }
        let mut layers: Vec<PsdLayer> = Vec::new();
        let ghost mut imgs: Seq<Seq<u8>> = Seq::empty();
        let mut k: usize = 0;
        while k < count
            invariant
                self.input() == s,
                s == old(self).input(),
                q1 == old(self).position(),
                rv == recs_view(records@),
                count == records@.len(),
                k <= count,
                rv.len() == count,
                rev@.len() == count - k,
                forall|i: int| 0 <= i < rev@.len() ==> #[trigger] rev@[i].view() == rv[count - 1 - i],
                layer_images(s, q1, rv, k as nat, *header, palette@) == Ok::<(Seq<Seq<u8>>, int), PsdError>(
                    (imgs, self.position()),
                ),
                layers@.len() == k,
                imgs.len() == k,
                forall|i: int| 0 <= i < k ==> #[trigger] layer_matches(layers@[i], rv[i], imgs[i]),
            decreases count - k,
        {
            let rec = rev.pop().unwrap();
            assert(rec.view() == rv[k as int]);
            let ghost qk = self.position();
            let layer = match self.decode_layer(rec, header, palette) {
                Ok(l) => l,
                Err(e) => {
                    proof {
                        assert(layer_image(s, qk, rv[k as int], *header, palette@) is Err);
                        assert(layer_images(s, q1, rv, (k + 1) as nat, *header, palette@) is Err);
                        lemma_images_err(s, q1, rv, (k + 1) as nat, count as nat, *header, palette@);
                        assert(layer_images(s, q1, rv, count as nat, *header, palette@) == Err::<(Seq<Seq<u8>>, int), PsdError>(e));
                    }
                    return Err(e);
                },
            };
            let ghost img = layer_image(s, self.position(), rv[k as int], *header, palette@);
            layers.push(layer);
            proof {
                imgs = imgs.push(layer_images(s, q1, rv, (k + 1) as nat, *header, palette@)->Ok_0.0.last());
            }
            k = k + 1;
        }
        Ok(layers)
    }

    /// Reads the layer count, the records and their channel data.
    #[verifier::rlimit(30)]
    fn read_layer_body(&mut self, header: &PsdHeader, palette: &[u8]) -> (r: Result<Vec<PsdLayer>, PsdError>)
        requires
            header_wf(*header),
        ensures
            final(self).input() == old(self).input(),
            match r {
                Ok(ls) => layer_body(old(self).input(), old(self).position(), *header, palette@) is Ok
                    && layers_match(
                    ls@,
                    layer_body(old(self).input(), old(self).position(), *header, palette@)->Ok_0.0,
                    layer_body(old(self).input(), old(self).position(), *header, palette@)->Ok_0.1,
                ),
                Err(e) => layer_body(old(self).input(), old(self).position(), *header, palette@)
                    == Err::<(Seq<RecordView>, Seq<Seq<u8>>), PsdError>(e),
            },
    {
        let raw = self.read_i16()?;
        let count: usize = if raw < 0 { (-(raw as i32)) as usize } else { raw as usize };
        let recs = self.read_layer_records(count, header.version, header.width, header.height)?;
        proof {
            lemma_records_count(self.input(), old(self).position() + 2, count as nat, header.version as int, header.width as int, header.height as int);
        }
        let layers = self.read_layer_images(recs, header, palette)?;
        Ok(layers)
    }

    /// Decodes the layer-and-mask section at the current position and moves
    /// to its end.
    #[verifier::rlimit(30)]
    pub(crate) fn parse_layers(&mut self, header: &PsdHeader, palette: &[u8]) -> (r: Result<
        Vec<PsdLayer>,
        PsdError,
    >)
        requires
            header_wf(*header),
        ensures
            final(self).input() == old(self).input(),
            match r {
                Ok(ls) => layer_section(old(self).input(), old(self).position(), *header, palette@)
                    is Ok && layers_match(
                    ls@,
                    layer_section(old(self).input(), old(self).position(), *header, palette@)->Ok_0.0,
                    layer_section(old(self).input(), old(self).position(), *header, palette@)->Ok_0.1,
                ) && final(self).position() == layer_section(
                    old(self).input(),
                    old(self).position(),
                    *header,
                    palette@,
                )->Ok_0.2,
                Err(e) => layer_section(old(self).input(), old(self).position(), *header, palette@)
                    == Err::<(Seq<RecordView>, Seq<Seq<u8>>, int), PsdError>(e),
            },
    {
        let ghost s = self.input();
        let ghost p = self.position();
        let _start = self.pos();
        let version = header.version;
        let section_len: u64 = if version == 1 {
            self.read_u32()? as u64
        } else {
            self.read_u64()?
        };
        if section_len == 0 {
            return Ok(Vec::new());
        }
        let here = self.pos();
        if here as u64 > usize::MAX as u64 || section_len > usize::MAX as u64 - here as u64 {
            return Err(PsdError::UnexpectedEndOfFile);
        }
        let section_end: usize = here + section_len as usize;
        let info_len: u64 = if version == 1 {
            self.read_u32()? as u64
        } else {
            self.read_u64()?
        };
        if info_len == 0 {
            self.seek(section_end);
            return Ok(Vec::new());
        }
        let layers = self.read_layer_body(header, palette)?;
        self.seek(section_end);
        Ok(layers)
    }
}

} // verus!
