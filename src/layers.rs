//! The layer table: one record per layer, read in storage order.

use vstd::prelude::*;
use crate::blend::{blend_at, blend_of};
use crate::bytes::{be_i16, be_i32, be_u16, be_u32};
use crate::cursor::{fits, PsdParser};
use crate::info::{info_records, len_at, len_width, pad4, tag_at, InfoState, InfoView};
use crate::model::{BlendMode, PsdError, PsdLayerType, PsdMaskInfo};
use crate::text::{string_from_utf8_lossy, utf8_lossy};

verus! {

/// A layer record as stored, before its channel data is decoded.
pub struct LayerRecord {
    pub top: i32,
    pub left: i32,
    pub bottom: i32,
    pub right: i32,
    pub channels: Vec<(i16, u64)>,
    pub blend_mode: BlendMode,
    pub opacity: u8,
    pub clipping: bool,
    pub visible: bool,
    pub mask_info: Option<PsdMaskInfo>,
    pub info: InfoState,
}

/// The mathematical form of a `LayerRecord`.
pub struct RecordView {
    pub top: i32,
    pub left: i32,
    pub bottom: i32,
    pub right: i32,
    pub channels: Seq<(i16, u64)>,
    pub blend_mode: BlendMode,
    pub opacity: u8,
    pub clipping: bool,
    pub visible: bool,
    pub mask_info: Option<PsdMaskInfo>,
    pub info: InfoView,
}

impl LayerRecord {
    pub open spec fn view(&self) -> RecordView {
        RecordView {
            top: self.top,
            left: self.left,
            bottom: self.bottom,
            right: self.right,
            channels: self.channels@,
            blend_mode: self.blend_mode,
            opacity: self.opacity,
            clipping: self.clipping,
            visible: self.visible,
            mask_info: self.mask_info,
            info: self.info.view(),
        }
    }
}

/// The user-mask placement stored at `m`.
pub open spec fn mask_at(s: Seq<u8>, m: int) -> PsdMaskInfo {
    PsdMaskInfo {
        top: be_i32(s, m) as i32,
        left: be_i32(s, m + 4) as i32,
        bottom: be_i32(s, m + 8) as i32,
        right: be_i32(s, m + 12) as i32,
        default_color: s[m + 16],
        flags: s[m + 17],
    }
}

/// Whether the "8BIM" signature stands at `p`.
pub open spec fn bim_at(s: Seq<u8>, p: int) -> bool {
    tag_at(s, p, 0x38, 0x42, 0x49, 0x4d)
}

/// The channel table of `n` entries at `t`: id and encoded length of each.
pub open spec fn channel_table(s: Seq<u8>, t: int, n: int, version: int) -> Seq<(i16, u64)> {
    Seq::new(
        n as nat,
        |j: int|
            (
                be_i16(s, t + j * (2 + len_width(version))) as i16,
                len_at(s, t + j * (2 + len_width(version)) + 2, version) as u64,
            ),
    )
}

/// The fixed part of a layer record, up to its extra-data length.
pub struct HeadView {
    pub top: i32,
    pub left: i32,
    pub bottom: i32,
    pub right: i32,
    pub channels: Seq<(i16, u64)>,
    pub blend_mode: BlendMode,
    pub opacity: u8,
    pub clipping: bool,
    pub visible: bool,
    pub extra_len: u32,
}

/// The exec form of `HeadView`.
pub struct LayerHead {
    pub top: i32,
    pub left: i32,
    pub bottom: i32,
    pub right: i32,
    pub channels: Vec<(i16, u64)>,
    pub blend_mode: BlendMode,
    pub opacity: u8,
    pub clipping: bool,
    pub visible: bool,
    pub extra_len: u32,
}

impl LayerHead {
    pub open spec fn view(&self) -> HeadView {
        HeadView {
            top: self.top,
            left: self.left,
            bottom: self.bottom,
            right: self.right,
            channels: self.channels@,
            blend_mode: self.blend_mode,
            opacity: self.opacity,
            clipping: self.clipping,
            visible: self.visible,
            extra_len: self.extra_len,
        }
    }
}

/// The fixed part of the layer record at `q` and the position where its extra
/// data starts, or the error that reading it meets first.
#[verifier::opaque]
pub open spec fn head_spec(s: Seq<u8>, q: int, version: int) -> Result<(HeadView, int), PsdError> {
    let es = 2 + len_width(version);
    if !fits(s, q, 18) {
        Err(PsdError::UnexpectedEndOfFile)
    } else {
        let nch = be_u16(s, q + 16);
        let b = q + 18 + nch * es;
        if !fits(s, q + 18, nch * es) || !fits(s, b, 4) {
            Err(PsdError::UnexpectedEndOfFile)
        } else if !bim_at(s, b) {
            Err(PsdError::InvalidLayerData)
        } else if !fits(s, b + 4, 12) {
            Err(PsdError::UnexpectedEndOfFile)
        } else {
            Ok(
                (
                    HeadView {
                        top: be_i32(s, q) as i32,
                        left: be_i32(s, q + 4) as i32,
                        bottom: be_i32(s, q + 8) as i32,
                        right: be_i32(s, q + 12) as i32,
                        channels: channel_table(s, q + 18, nch, version),
                        blend_mode: blend_at(s, b + 4),
                        opacity: s[b + 8],
                        clipping: s[b + 9] > 0,
                        visible: s[b + 10] & 2 == 0,
                        extra_len: be_u32(s, b + 12) as u32,
                    },
                    b + 16,
                ),
            )
        }
    }
}

/// The layer record at `q` and the position after it, or the error that
/// reading it meets first. The name is the Pascal string unless a `luni`
/// record replaces it.
#[verifier::opaque]
pub open spec fn record_spec(s: Seq<u8>, q: int, version: int, w: int, h: int) -> Result<
    (RecordView, int),
    PsdError,
> {
    match head_spec(s, q, version) {
        Err(e) => Err(e),
        Ok((hd, e0)) => {
            let xend = e0 + hd.extra_len;
            if xend > usize::MAX {
                Err(PsdError::UnexpectedEndOfFile)
            } else {
                match extra_spec(s, e0, xend, version, w, h) {
                    Err(e) => Err(e),
                    Ok((mask_info, info)) => Ok(
                        (
                            RecordView {
                                top: hd.top,
                                left: hd.left,
                                bottom: hd.bottom,
                                right: hd.right,
                                channels: hd.channels,
                                blend_mode: hd.blend_mode,
                                opacity: hd.opacity,
                                clipping: hd.clipping,
                                visible: hd.visible,
                                mask_info,
                                info,
                            },
                            xend,
                        ),
                    ),
                }
            }
        },
    }
}

/// The extra data of a layer record, from `e0` to `xend`: the user mask
/// placement (where its block holds at least 18 bytes) and what the name and
/// the additional-info records give.
#[verifier::opaque]
pub open spec fn extra_spec(s: Seq<u8>, e0: int, xend: int, version: int, w: int, h: int) -> Result<
    (Option<PsdMaskInfo>, InfoView),
    PsdError,
> {
    let ml = if fits(s, e0, 4) { be_u32(s, e0) } else { 0 };
    let m0 = e0 + 4;
    let br = m0 + ml;
    let bl = if fits(s, br, 4) { be_u32(s, br) } else { 0 };
    let nm = br + 4 + bl;
    let nl = if fits(s, nm, 1) { s[nm] as int } else { 0 };
    if !fits(s, e0, 4) || !fits(s, m0, ml) || !fits(s, br, 4) || !fits(s, br + 4, bl) || !fits(
        s,
        nm,
        1,
    ) || !fits(s, nm, pad4(nl + 1)) {
        Err(PsdError::UnexpectedEndOfFile)
    } else {
        let info0 = InfoView {
            name: utf8_lossy(s.subrange(nm + 1, nm + 1 + nl)),
            layer_type: PsdLayerType::Normal,
            text: None,
            vector_mask: None,
        };
        match info_records(s, nm + pad4(nl + 1), xend, version, w, h, info0) {
            Err(e) => Err(e),
            Ok(info) => Ok((if ml >= 18 { Some(mask_at(s, m0)) } else { None }, info)),
        }
    }
}

/// The first `k` records from `p`, and the position after them.
pub open spec fn records_spec(s: Seq<u8>, p: int, k: nat, version: int, w: int, h: int) -> Result<
    (Seq<RecordView>, int),
    PsdError,
>
    decreases k,
{
    if k == 0 {
        Ok((Seq::empty(), p))
    } else {
        match records_spec(s, p, (k - 1) as nat, version, w, h) {
            Err(e) => Err(e),
            Ok((rs, q)) => match record_spec(s, q, version, w, h) {
                Err(e) => Err(e),
                Ok((r, q2)) => Ok((rs.push(r), q2)),
            },
        }
    }
}

pub proof fn lemma_records_err(s: Seq<u8>, p: int, k: nat, m: nat, version: int, w: int, h: int)
    requires
        k <= m,
        records_spec(s, p, k, version, w, h) is Err,
    ensures
        records_spec(s, p, m, version, w, h) == records_spec(s, p, k, version, w, h),
    decreases m - k,
{
    if k < m {
        lemma_records_err(s, p, k, (m - 1) as nat, version, w, h);
    }
}

impl<'a> PsdParser<'a> {
    /// Reads the extra data of a layer record, which ends at `extra_end`.
    #[verifier::rlimit(60)]
    fn read_extra_data(&mut self, extra_end: usize, version: u16, width: u32, height: u32) -> (r:
        Result<(Option<PsdMaskInfo>, InfoState), PsdError>)
        requires
            version == 1 || version == 2,
        ensures
            final(self).input() == old(self).input(),
            match r {
                Ok((m, info)) => extra_spec(
                    old(self).input(),
                    old(self).position(),
                    extra_end as int,
                    version as int,
                    width as int,
                    height as int,
                ) == Ok::<(Option<PsdMaskInfo>, InfoView), PsdError>((m, info.view())),
                Err(e) => extra_spec(
                    old(self).input(),
                    old(self).position(),
                    extra_end as int,
                    version as int,
                    width as int,
                    height as int,
                ) == Err::<(Option<PsdMaskInfo>, InfoView), PsdError>(e),
            },
    {
        reveal(extra_spec);
        let ghost s = self.input();
        let _start = self.pos();
        let _total = self.len();
        let mask_len = self.read_u32()?;
        if !self.has(mask_len as usize) {
            return Err(PsdError::UnexpectedEndOfFile);
        }
        let mut mask_info: Option<PsdMaskInfo> = None;
        if mask_len >= 18 {
            let m_top = self.read_i32()?;
            let m_left = self.read_i32()?;
            let m_bottom = self.read_i32()?;
            let m_right = self.read_i32()?;
            let default_color = self.read_u8()?;
            let m_flags = self.read_u8()?;
            mask_info =
            Some(
                PsdMaskInfo {
                    top: m_top,
                    left: m_left,
                    bottom: m_bottom,
                    right: m_right,
                    default_color,
                    flags: m_flags,
                },
            );
            self.skip(mask_len as usize - 18)?;
        } else {
            self.skip(mask_len as usize)?;
        }
        let ranges_len = self.read_u32()?;
        self.skip(ranges_len as usize)?;
        let ghost nm = self.position();
        let name_len = self.read_u8()?;
        let padded: usize = (name_len as usize + 1 + 3) / 4 * 4;
        if !self.has(padded - 1) {
            return Err(PsdError::UnexpectedEndOfFile);
        }
        let name_bytes = self.read_bytes(name_len as usize)?;
        let name = string_from_utf8_lossy(name_bytes);
        self.skip(padded - 1 - name_len as usize)?;
        let mut info = InfoState {
            name,
            layer_type: PsdLayerType::Normal,
            text_data: None,
            vector_mask: None,
        };
        self.read_info_records(extra_end, version, width, height, &mut info)?;
        Ok((mask_info, info))
    }

    /// Reads a channel table of `nch` entries.
    fn read_channel_table(&mut self, nch: u16, version: u16) -> (r: Result<Vec<(i16, u64)>, PsdError>)
        requires
            version == 1 || version == 2,
            fits(old(self).input(), old(self).position(), nch * (2 + len_width(version as int))),
        ensures
            final(self).input() == old(self).input(),
            r is Ok,
            r->Ok_0@ == channel_table(old(self).input(), old(self).position(), nch as int, version as int),
            final(self).position() == old(self).position() + nch * (2 + len_width(version as int)),
    {
        let ghost s = self.input();
        let ghost t = self.position();
        let _start = self.pos();
        let es: usize = if version == 1 { 6 } else { 10 };
        let mut channels: Vec<(i16, u64)> = Vec::new();
        let mut j: u16 = 0;
        while j < nch
            invariant
                self.input() == s,
                t >= 0,
                es as int == 2 + len_width(version as int),
                version == 1 || version == 2,
                fits(s, t, nch * es),
                j <= nch,
                self.position() == t + j * es,
                channels@ =~= channel_table(s, t, nch as int, version as int).subrange(0, j as int),
            decreases nch - j,
        {
            proof {
                assert(j * es + es <= nch * es) by (nonlinear_arith)
                    requires
                        j < nch,
                ;
                assert((j + 1) * es == j * es + es) by (nonlinear_arith);
            }
            let id = self.read_i16()?;
            let len: u64 = if version == 1 {
                self.read_u32()? as u64
            } else {
                self.read_u64()?
            };
            channels.push((id, len));
            j = j + 1;
        }
        assert(channels@ =~= channel_table(s, t, nch as int, version as int));
        Ok(channels)
    }

    /// Reads the fixed part of a layer record, up to its extra-data length.
    #[verifier::rlimit(40)]
    fn read_layer_head(&mut self, version: u16) -> (r: Result<LayerHead, PsdError>)
        requires
            version == 1 || version == 2,
        ensures
            final(self).input() == old(self).input(),
            match r {
                Ok(hd) => head_spec(old(self).input(), old(self).position(), version as int)
                    == Ok::<(HeadView, int), PsdError>((hd.view(), final(self).position())),
                Err(e) => head_spec(old(self).input(), old(self).position(), version as int)
                    == Err::<(HeadView, int), PsdError>(e),
            },
    {
        reveal(head_spec);
        let ghost s = self.input();
        let _start = self.pos();
        let _total = self.len();
        if !self.has(18) {
            return Err(PsdError::UnexpectedEndOfFile);
        }
        let top = self.read_i32()?;
        let left = self.read_i32()?;
        let bottom = self.read_i32()?;
        let right = self.read_i32()?;
        let nch = self.read_u16()?;
        let es: usize = if version == 1 { 6 } else { 10 };
        assert(nch as int * es as int <= 655350) by (nonlinear_arith)
            requires
                nch <= 65535,
                es <= 10,
        ;
        if !self.has(nch as usize * es) {
            return Err(PsdError::UnexpectedEndOfFile);
        }
        let channels = self.read_channel_table(nch, version)?;
        let ghost b = self.position();
        let sig = self.read_bytes(4)?;
        if !(sig[0] == 0x38 && sig[1] == 0x42 && sig[2] == 0x49 && sig[3] == 0x4d) {
            return Err(PsdError::InvalidLayerData);
        }
        if !self.has(12) {
            return Err(PsdError::UnexpectedEndOfFile);
        }
        let key = self.read_bytes(4)?;
        assert(key@ =~= s.subrange(b + 4, b + 8));
        let blend_mode = blend_of(key);
        let opacity = self.read_u8()?;
        let clipping = self.read_u8()?;
        let flags = self.read_u8()?;
        self.skip(1)?;
        let extra_len = self.read_u32()?;
        Ok(
            LayerHead {
                top,
                left,
                bottom,
                right,
                channels,
                blend_mode,
                opacity,
                clipping: clipping > 0,
                visible: flags & 2 == 0,
                extra_len,
            },
        )
    }

    /// Reads one layer record and moves past its extra data.
    #[verifier::rlimit(30)]
    pub(crate) fn read_layer_record(&mut self, version: u16, width: u32, height: u32) -> (r: Result<
        LayerRecord,
        PsdError,
    >)
        requires
            version == 1 || version == 2,
        ensures
            final(self).input() == old(self).input(),
            match r {
                Ok(rec) => record_spec(
                    old(self).input(),
                    old(self).position(),
                    version as int,
                    width as int,
                    height as int,
                ) == Ok::<(RecordView, int), PsdError>((rec.view(), final(self).position())),
                Err(e) => record_spec(
                    old(self).input(),
                    old(self).position(),
                    version as int,
                    width as int,
                    height as int,
                ) == Err::<(RecordView, int), PsdError>(e),
            },
    {
        reveal(record_spec);
        let hd = self.read_layer_head(version)?;
        let e0 = self.pos();
        if e0 as u64 > usize::MAX as u64 || hd.extra_len as u64 > usize::MAX as u64 - e0 as u64 {
            return Err(PsdError::UnexpectedEndOfFile);
        }
        let extra_end: usize = e0 + hd.extra_len as usize;
        let (mask_info, info) = self.read_extra_data(extra_end, version, width, height)?;
        self.seek(extra_end);
        Ok(
            LayerRecord {
                top: hd.top,
                left: hd.left,
                bottom: hd.bottom,
                right: hd.right,
                channels: hd.channels,
                blend_mode: hd.blend_mode,
                opacity: hd.opacity,
                clipping: hd.clipping,
                visible: hd.visible,
                mask_info,
                info,
            },
        )
    }
}

} // verus!
