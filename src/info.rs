//! The tagged additional-info records at the end of a layer record.
//!
//! Records are walked until the end of the layer's extra data. Each one
//! carries its own length, and the reader always resumes at the offset that
//! this length gives, so a record of an unknown kind is passed over whole.

use vstd::prelude::*;
use crate::bytes::{be_i32, be_u16, be_u32, be_u64};
use crate::cursor::{fits, PsdParser};
use crate::model::{PathPoint, PsdError, PsdLayerType};
use crate::text::{
    string_from_utf16, string_from_utf8_lossy, trim_nul, trim_nul_units, utf16_decoded, utf8_lossy,
};

verus! {

/// The kinds of additional-info record that the reader interprets.
#[derive(Debug, Clone, Copy, PartialEq, Eq, Structural)]
pub enum InfoKey {
    /// `luni`: the layer name in UTF-16.
    UnicodeName,
    /// `lsct`: a group boundary.
    SectionDivider,
    /// `TySh`: an editable text layer.
    TypeTool,
    /// `vmsk` or `vsms`: a vector mask.
    VectorMask,
    /// Anything else.
    Unknown,
}

/// Whether the four bytes at `p` are `a b c d`.
pub open spec fn tag_at(s: Seq<u8>, p: int, a: u8, b: u8, c: u8, d: u8) -> bool {
    s[p] == a && s[p + 1] == b && s[p + 2] == c && s[p + 3] == d
}

/// The kind of the record whose key stands at `p`.
pub open spec fn key_at(s: Seq<u8>, p: int) -> InfoKey {
    if tag_at(s, p, 0x6c, 0x75, 0x6e, 0x69) {
        InfoKey::UnicodeName
    } else if tag_at(s, p, 0x6c, 0x73, 0x63, 0x74) {
        InfoKey::SectionDivider
    } else if tag_at(s, p, 0x54, 0x79, 0x53, 0x68) {
        InfoKey::TypeTool
    } else if tag_at(s, p, 0x76, 0x6d, 0x73, 0x6b) || tag_at(s, p, 0x76, 0x73, 0x6d, 0x73) {
        InfoKey::VectorMask
    } else {
        InfoKey::Unknown
    }
}

/// Whether a record signature ("8BIM" or "8B64") stands at `p`.
pub open spec fn signature_at(s: Seq<u8>, p: int) -> bool {
    tag_at(s, p, 0x38, 0x42, 0x49, 0x4d) || tag_at(s, p, 0x38, 0x42, 0x36, 0x34)
}

/// The layer type that a section-divider code stands for.
pub open spec fn divider_type(d: int) -> PsdLayerType {
    if d == 1 {
        PsdLayerType::FolderOpen
    } else if d == 2 {
        PsdLayerType::FolderClosed
    } else if d == 3 {
        PsdLayerType::SectionDivider
    } else {
        PsdLayerType::Normal
    }
}

/// What the additional-info records have set so far.
pub struct InfoView {
    pub name: Seq<char>,
    pub layer_type: PsdLayerType,
    pub text: Option<Seq<char>>,
    pub vector_mask: Option<Seq<PathPoint>>,
}

/// The exec form of `InfoView`.
pub struct InfoState {
    pub name: String,
    pub layer_type: PsdLayerType,
    pub text_data: Option<String>,
    pub vector_mask: Option<Vec<PathPoint>>,
}

pub open spec fn opt_text(o: Option<String>) -> Option<Seq<char>> {
    match o {
        Some(t) => Some(t@),
        None => None,
    }
}

pub open spec fn opt_points(o: Option<Vec<PathPoint>>) -> Option<Seq<PathPoint>> {
    match o {
        Some(v) => Some(v@),
        None => None,
    }
}

impl InfoState {
    pub open spec fn view(&self) -> InfoView {
        InfoView {
            name: self.name@,
            layer_type: self.layer_type,
            text: opt_text(self.text_data),
            vector_mask: opt_points(self.vector_mask),
        }
    }
}

/// A length rounded up to a multiple of four.
pub open spec fn pad4(n: int) -> int {
    (n + 3) / 4 * 4
}

/// Width in bytes of a length field: 4 in version 1, 8 in version 2.
pub open spec fn len_width(version: int) -> int {
    if version == 1 { 4 } else { 8 }
}

/// A length field of the given version at `p`.
pub open spec fn len_at(s: Seq<u8>, p: int, version: int) -> int {
    if version == 1 { be_u32(s, p) } else { be_u64(s, p) }
}

/// The vertices of the first `k` 26-byte path records starting at `r0`. Only
/// records with selector 6, 7 or 8 give a vertex, taken from their first
/// coordinate pair (vertical first) and scaled by the canvas size.
pub open spec fn path_points(s: Seq<u8>, r0: int, k: nat, w: int, h: int) -> Result<
    Seq<PathPoint>,
    PsdError,
>
    decreases k,
{
    if k == 0 {
        Ok(Seq::empty())
    } else {
        match path_points(s, r0, (k - 1) as nat, w, h) {
            Err(e) => Err(e),
            Ok(ps) => {
                let r = r0 + 26 * (k - 1);
                if !fits(s, r, 26) {
                    Err(PsdError::UnexpectedEndOfFile)
                } else {
                    let sel = be_u16(s, r);
                    if sel == 6 || sel == 7 || sel == 8 {
                        Ok(
                            ps.push(
                                PathPoint {
                                    x: (be_i32(s, r + 6) * w) as i64,
                                    y: (be_i32(s, r + 2) * h) as i64,
                                },
                            ),
                        )
                    } else {
                        Ok(ps)
                    }
                }
            },
        }
    }
}

/// The code units of a `luni` body of `cnt` units at `p`.
pub open spec fn units_at(s: Seq<u8>, p: int, cnt: int) -> Seq<u16> {
    Seq::new(cnt as nat, |i: int| be_u16(s, p + 2 * i) as u16)
}

/// The effect of the body of one record of kind `key` and length `len` at `body`.
pub open spec fn apply_record(
    s: Seq<u8>,
    key: InfoKey,
    body: int,
    len: int,
    next: int,
    w: int,
    h: int,
    acc: InfoView,
) -> Result<InfoView, PsdError> {
    match key {
        InfoKey::UnicodeName => {
            if !fits(s, body, 4) {
                Err(PsdError::UnexpectedEndOfFile)
            } else {
                let cnt = be_u32(s, body);
                if !fits(s, body + 4, 2 * cnt) {
                    Err(PsdError::UnexpectedEndOfFile)
                } else {
                    match utf16_decoded(trim_nul(units_at(s, body + 4, cnt))) {
                        Some(t) => Ok(InfoView { name: t, ..acc }),
                        None => Ok(acc),
                    }
                }
            }
        },
        InfoKey::SectionDivider => {
            if !fits(s, body, 4) {
                Err(PsdError::UnexpectedEndOfFile)
            } else {
                Ok(InfoView { layer_type: divider_type(be_u32(s, body)), ..acc })
            }
        },
        InfoKey::TypeTool => {
            if len <= 50 {
                Ok(acc)
            } else if !fits(s, body, 50) {
                Err(PsdError::UnexpectedEndOfFile)
            } else {
                let t = be_u16(s, body + 48);
                if t > 0 && body + 50 + t <= next {
                    if !fits(s, body + 50, t) {
                        Err(PsdError::UnexpectedEndOfFile)
                    } else {
                        Ok(
                            InfoView {
                                text: Some(utf8_lossy(s.subrange(body + 50, body + 50 + t))),
                                ..acc
                            },
                        )
                    }
                } else {
                    Ok(acc)
                }
            }
        },
        InfoKey::VectorMask => {
            if len < 26 {
                Ok(acc)
            } else if !fits(s, body, 4) {
                Err(PsdError::UnexpectedEndOfFile)
            } else {
                match path_points(s, body + 4, ((len - 4) / 26) as nat, w, h) {
                    Err(e) => Err(e),
                    Ok(ps) => if ps.len() > 0 {
                        Ok(InfoView { vector_mask: Some(ps), ..acc })
                    } else {
                        Ok(acc)
                    },
                }
            }
        },
        InfoKey::Unknown => Ok(acc),
    }
}

/// One record at `p`: `None` where no record signature stands there (the walk
/// stops), else what the record sets and where the next one starts.
pub open spec fn record_step(s: Seq<u8>, p: int, version: int, w: int, h: int, acc: InfoView) -> Result<
    Option<(InfoView, int)>,
    PsdError,
> {
    if !fits(s, p, 4) {
        Err(PsdError::UnexpectedEndOfFile)
    } else if !signature_at(s, p) {
        Ok(None)
    } else if !fits(s, p + 4, 4) || !fits(s, p + 8, len_width(version)) {
        Err(PsdError::UnexpectedEndOfFile)
    } else {
        let len = len_at(s, p + 8, version);
        let body = p + 8 + len_width(version);
        let next = body + pad4(len);
        if next > usize::MAX {
            Err(PsdError::UnexpectedEndOfFile)
        } else {
            match apply_record(s, key_at(s, p + 4), body, len, next, w, h, acc) {
                Err(e) => Err(e),
                Ok(a) => Ok(Some((a, next))),
            }
        }
    }
}

/// What the records from `p` up to `end` set, starting from `acc`.
pub open spec fn info_records(s: Seq<u8>, p: int, end: int, version: int, w: int, h: int, acc: InfoView) -> Result<
    InfoView,
    PsdError,
>
    decreases end - p,
{
    if p >= end {
        Ok(acc)
    } else {
        match record_step(s, p, version, w, h, acc) {
            Err(e) => Err(e),
            Ok(None) => Ok(acc),
            Ok(Some((a, next))) => if p < next < end {
                info_records(s, next, end, version, w, h, a)
            } else {
                Ok(a)
            },
        }
    }
}

/// A record of an unknown kind changes nothing and is passed over by its own
/// length, so that the records after it are read as if it were absent.
pub proof fn lemma_unknown_record_skipped(
    s: Seq<u8>,
    p: int,
    end: int,
    version: int,
    w: int,
    h: int,
    acc: InfoView,
)
    requires
        version == 1 || version == 2,
        p < end,
        p >= 0,
        fits(s, p, 8 + len_width(version)),
        signature_at(s, p),
        key_at(s, p + 4) == InfoKey::Unknown,
        p + 8 + len_width(version) + pad4(len_at(s, p + 8, version)) < end,
        end <= usize::MAX,
    ensures
        info_records(s, p, end, version, w, h, acc) == info_records(
            s,
            p + 8 + len_width(version) + pad4(len_at(s, p + 8, version)),
            end,
            version,
            w,
            h,
            acc,
        ),
{
    let len = len_at(s, p + 8, version);
    assert(len >= 0);
    assert(pad4(len) >= 0);
}

fn key_of(k: &[u8]) -> (r: InfoKey)
    requires
        k@.len() == 4,
    ensures
        r == key_at(k@, 0),
{
    if k[0] == 0x6c && k[1] == 0x75 && k[2] == 0x6e && k[3] == 0x69 {
        InfoKey::UnicodeName
    } else if k[0] == 0x6c && k[1] == 0x73 && k[2] == 0x63 && k[3] == 0x74 {
        InfoKey::SectionDivider
    } else if k[0] == 0x54 && k[1] == 0x79 && k[2] == 0x53 && k[3] == 0x68 {
        InfoKey::TypeTool
    } else if (k[0] == 0x76 && k[1] == 0x6d && k[2] == 0x73 && k[3] == 0x6b) || (k[0] == 0x76
        && k[1] == 0x73 && k[2] == 0x6d && k[3] == 0x73) {
        InfoKey::VectorMask
    } else {
        InfoKey::Unknown
    }
}

proof fn lemma_path_points_err(s: Seq<u8>, r0: int, k: nat, m: nat, w: int, h: int)
    requires
        k <= m,
        path_points(s, r0, k, w, h) is Err,
    ensures
        path_points(s, r0, m, w, h) == path_points(s, r0, k, w, h),
    decreases m - k,
{
    if k < m {
        lemma_path_points_err(s, r0, k, (m - 1) as nat, w, h);
    }
}

impl<'a> PsdParser<'a> {
    /// Reads `count` path records from the current position.
    #[verifier::rlimit(30)]
    fn read_path_points(&mut self, count: u64, width: u32, height: u32) -> (r: Result<
        Vec<PathPoint>,
        PsdError,
    >)
        ensures
            final(self).input() == old(self).input(),
            match r {
                Ok(v) => path_points(
                    old(self).input(),
                    old(self).position(),
                    count as nat,
                    width as int,
                    height as int,
                ) == Ok::<Seq<PathPoint>, PsdError>(v@),
                Err(e) => path_points(
                    old(self).input(),
                    old(self).position(),
                    count as nat,
                    width as int,
                    height as int,
                ) == Err::<Seq<PathPoint>, PsdError>(e),
            },
    {
        let ghost s = self.input();
        let ghost r0 = self.position();
        let mut out: Vec<PathPoint> = Vec::new();
        let mut i: u64 = 0;
        while i < count
            invariant
                self.input() == s,
                s == old(self).input(),
                r0 == old(self).position(),
                i <= count,
                self.position() == r0 + 26 * i,
                path_points(s, r0, i as nat, width as int, height as int) == Ok::<
                    Seq<PathPoint>,
                    PsdError,
                >(out@),
            decreases count - i,
        {
            if !self.has(26) {
                proof {
                    lemma_path_points_err(s, r0, (i + 1) as nat, count as nat, width as int, height as int);
                }
                return Err(PsdError::UnexpectedEndOfFile);
            }
            let selector = self.read_u16()?;
            if selector == 6 || selector == 7 || selector == 8 {
                let y = self.read_i32()?;
                let x = self.read_i32()?;
                self.skip(16)?;
                proof {
                    assert((x as int) * (width as int) <= i64::MAX && (x as int) * (width as int)
                        >= i64::MIN) by (nonlinear_arith)
                        requires
                            -2147483648 <= x <= 2147483647,
                            0 <= width <= 4294967295,
                    ;
                    assert((y as int) * (height as int) <= i64::MAX && (y as int) * (height as int)
                        >= i64::MIN) by (nonlinear_arith)
                        requires
                            -2147483648 <= y <= 2147483647,
                            0 <= height <= 4294967295,
                    ;
                }
                out.push(PathPoint { x: x as i64 * width as i64, y: y as i64 * height as i64 });
            } else {
                self.skip(24)?;
            }
            i = i + 1;
        }
        Ok(out)
    }

    /// Applies the body of one record of kind `key` at the current position.
    #[verifier::rlimit(30)]
    fn apply_info_record(
        &mut self,
        key: InfoKey,
        len: u64,
        next: usize,
        width: u32,
        height: u32,
        state: &mut InfoState,
    ) -> (r: Result<(), PsdError>)
        ensures
            final(self).input() == old(self).input(),
            match r {
                Ok(_) => apply_record(
                    old(self).input(),
                    key,
                    old(self).position(),
                    len as int,
                    next as int,
                    width as int,
                    height as int,
                    old(state).view(),
                ) == Ok::<InfoView, PsdError>(final(state).view()),
                Err(e) => apply_record(
                    old(self).input(),
                    key,
                    old(self).position(),
                    len as int,
                    next as int,
                    width as int,
                    height as int,
                    old(state).view(),
                ) == Err::<InfoView, PsdError>(e),
            },
    {
        let ghost s = self.input();
        let ghost body = self.position();
        let _b = self.pos();
        match key {
            InfoKey::UnicodeName => {
                let cnt = self.read_u32()?;
                let _total = self.len();
                let bytes_len: u64 = 2 * cnt as u64;
                if bytes_len > usize::MAX as u64 || !self.has(bytes_len as usize) {
                    return Err(PsdError::UnexpectedEndOfFile);
                }
                let mut units: Vec<u16> = Vec::new();
                let mut i: u32 = 0;
                while i < cnt
                    invariant
                        self.input() == s,
                        self.position() == body + 4 + 2 * i,
                        fits(s, body + 4, 2 * cnt),
                        i <= cnt,
                        units@ =~= units_at(s, body + 4, cnt as int).subrange(0, i as int),
                    decreases cnt - i,
                {
                    let u = self.read_u16()?;
                    units.push(u);
                    i = i + 1;
                }
                assert(units@ =~= units_at(s, body + 4, cnt as int));
                let trimmed = trim_nul_units(&units);
                match string_from_utf16(trimmed.as_slice()) {
                    Some(t) => {
                        state.name = t;
                    },
                    None => {},
                }
                Ok(())
            },
            InfoKey::SectionDivider => {
                let d = self.read_u32()?;
                state.layer_type =
                if d == 1 {
                    PsdLayerType::FolderOpen
                } else if d == 2 {
                    PsdLayerType::FolderClosed
                } else if d == 3 {
                    PsdLayerType::SectionDivider
                } else {
                    PsdLayerType::Normal
                };
                Ok(())
            },
            InfoKey::TypeTool => {
                if len <= 50 {
                    return Ok(());
                }
                if !self.has(50) {
                    return Err(PsdError::UnexpectedEndOfFile);
                }
                self.skip(48)?;
                let t = self.read_u16()? as usize;
                let here = self.pos();
                if t > 0 && t <= next && here <= next - t {
                    let bytes = self.read_bytes(t)?;
                    state.text_data = Some(string_from_utf8_lossy(bytes));
                }
                Ok(())
            },
            InfoKey::VectorMask => {
                if len < 26 {
                    return Ok(());
                }
                self.skip(4)?;
                let points = self.read_path_points((len - 4) / 26, width, height)?;
                if points.len() > 0 {
                    state.vector_mask = Some(points);
                }
                Ok(())
            },
            InfoKey::Unknown => Ok(()),
        }
    }

    /// Reads one record at the current position: `false` where no record
    /// signature stands there, else applies it and moves to the next record.
    #[verifier::rlimit(30)]
    fn read_info_record(&mut self, version: u16, width: u32, height: u32, state: &mut InfoState) -> (r:
        Result<bool, PsdError>)
        requires
            version == 1 || version == 2,
        ensures
            final(self).input() == old(self).input(),
            match r {
                Ok(more) => if more {
                    record_step(
                        old(self).input(),
                        old(self).position(),
                        version as int,
                        width as int,
                        height as int,
                        old(state).view(),
                    ) == Ok::<Option<(InfoView, int)>, PsdError>(
                        Some((final(state).view(), final(self).position())),
                    )
                } else {
                    record_step(
                        old(self).input(),
                        old(self).position(),
                        version as int,
                        width as int,
                        height as int,
                        old(state).view(),
                    ) == Ok::<Option<(InfoView, int)>, PsdError>(None) && final(state).view()
                        == old(state).view()
                },
                Err(e) => record_step(
                    old(self).input(),
                    old(self).position(),
                    version as int,
                    width as int,
                    height as int,
                    old(state).view(),
                ) == Err::<Option<(InfoView, int)>, PsdError>(e),
            },
    {
        let ghost s = self.input();
        let ghost p = self.position();
        let _start = self.pos();
        let sig = self.read_bytes(4)?;
        let is_sig = (sig[0] == 0x38 && sig[1] == 0x42 && sig[2] == 0x49 && sig[3] == 0x4d) || (
        sig[0] == 0x38 && sig[1] == 0x42 && sig[2] == 0x36 && sig[3] == 0x34);
        if !is_sig {
            return Ok(false);
        }
        let kb = self.read_bytes(4)?;
        assert(kb@ =~= s.subrange(p + 4, p + 8));
        let key = key_of(kb);
        let len: u64 = if version == 1 {
            self.read_u32()? as u64
        } else {
            self.read_u64()?
        };
        let body = self.pos();
        if len > u64::MAX - 3 {
            return Err(PsdError::UnexpectedEndOfFile);
        }
        let padded: u64 = (len + 3) / 4 * 4;
        if body as u64 > usize::MAX as u64 || padded > usize::MAX as u64 - body as u64 {
            return Err(PsdError::UnexpectedEndOfFile);
        }
        let next: usize = body + padded as usize;
        self.apply_info_record(key, len, next, width, height, state)?;
        self.seek(next);
        Ok(true)
    }

    /// Walks the records from the current position up to `end`, then stays
    /// wherever the walk stopped.
    #[verifier::rlimit(30)]
    pub(crate) fn read_info_records(
        &mut self,
        end: usize,
        version: u16,
        width: u32,
        height: u32,
        state: &mut InfoState,
    ) -> (r: Result<(), PsdError>)
        requires
            version == 1 || version == 2,
        ensures
            final(self).input() == old(self).input(),
            match r {
                Ok(_) => info_records(
                    old(self).input(),
                    old(self).position(),
                    end as int,
                    version as int,
                    width as int,
                    height as int,
                    old(state).view(),
                ) == Ok::<InfoView, PsdError>(final(state).view()),
                Err(e) => info_records(
                    old(self).input(),
                    old(self).position(),
                    end as int,
                    version as int,
                    width as int,
                    height as int,
                    old(state).view(),
                ) == Err::<InfoView, PsdError>(e),
            },
    {
        let ghost s = self.input();
        let ghost goal = info_records(
            s,
            self.position(),
            end as int,
            version as int,
            width as int,
            height as int,
            state.view(),
        );
        loop
            invariant
                self.input() == s,
                s == old(self).input(),
                version == 1 || version == 2,
                goal == info_records(
                    s,
                    old(self).position(),
                    end as int,
                    version as int,
                    width as int,
                    height as int,
                    old(state).view(),
                ),
                goal == info_records(
                    s,
                    self.position(),
                    end as int,
                    version as int,
                    width as int,
                    height as int,
                    state.view(),
                ),
            decreases end - self.position(),
        {
            let here = self.pos();
            if here >= end {
                return Ok(());
            }
            let more = self.read_info_record(version, width, height, state)?;
            if !more {
                return Ok(());
            }
            let there = self.pos();
            if there <= here || there >= end {
                return Ok(());
            }
        }
    }
}

} // verus!
