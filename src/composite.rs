//! The flattened composite image that closes the file.

use vstd::prelude::*;
use crate::bytes::be_u16;
use crate::channel::{downsampled, inflate, lemma_rle_rows_len, rle_block, sample_bytes, undelta, undo_delta, zlib_inflated};
use crate::color::{cmyk_component, cmyk_to_rgb, indexed_rgb, indexed_to_rgb};
use crate::lab::{lab_rgb, lab_to_rgb};
use crate::cursor::{fits, PsdParser};
use crate::header::header_wf;
use crate::model::{ColorMode, PsdError, PsdHeader};
use crate::pixels::flatten;

verus! {

/// The samples of the composite, channel after channel, each channel holding
/// `width * height` samples; `None` where the input ends before the
/// compression tag or the tag is unknown. Zlib data (tags 2 and 3) runs to the
/// end of the input.
pub open spec fn composite_data(s: Seq<u8>, p: int, h: PsdHeader) -> Result<Option<Seq<u8>>, PsdError> {
    let n = h.width as int * h.height as int;
    let bps = sample_bytes(h.depth as int);
    if !fits(s, p, 2) {
        Ok(None)
    } else if be_u16(s, p) == 0 {
        let total = h.channels as int * n * bps;
        if !fits(s, p + 2, total) {
            Err(PsdError::UnexpectedEndOfFile)
        } else {
            Ok(Some(downsampled(s.subrange(p + 2, p + 2 + total), h.depth as int)))
        }
    } else if be_u16(s, p) == 1 {
        if h.channels as int * h.height as int > 0 && h.width as int * bps > usize::MAX {
            Err(PsdError::InvalidLayerData)
        } else {
        match rle_block(s, p + 2, h.channels as int * h.height as int, h.width as int * bps) {
            Err(e) => Err(e),
            Ok((rows, _q)) => Ok(Some(downsampled(rows, h.depth as int))),
        }
        }
    } else if be_u16(s, p) == 2 || be_u16(s, p) == 3 {
        match zlib_inflated(s.subrange(p + 2, s.len() as int)) {
            None => Err(PsdError::ZipError),
            Some(z) => if be_u16(s, p) == 3 && h.width as int * bps > usize::MAX {
                Err(PsdError::InvalidLayerData)
            } else {
                let z2 = if be_u16(s, p) == 3 { undelta(z, h.width as int * bps) } else { z };
                Ok(Some(downsampled(z2, h.depth as int)))
            },
        }
    } else {
        Ok(None)
    }
}

/// Sample `i` of composite channel `c`, or `d` where the channel is missing.
pub open spec fn flat_sample(flat: Seq<u8>, nch: int, n: int, c: int, i: int, d: u8) -> u8 {
    if c < nch && 0 <= c * n + i < flat.len() { flat[c * n + i] } else { d }
}

/// Composite pixel `i` under each colour model.
pub open spec fn composite_pixel(
    mode: ColorMode,
    flat: Seq<u8>,
    nch: int,
    n: int,
    palette: Seq<u8>,
    i: int,
) -> (u8, u8, u8, u8) {
    let g0 = flat_sample(flat, nch, n, 0, i, 0);
    match mode {
        ColorMode::Rgb => (
            flat_sample(flat, nch, n, 0, i, 255),
            flat_sample(flat, nch, n, 1, i, 255),
            flat_sample(flat, nch, n, 2, i, 255),
            flat_sample(flat, nch, n, 3, i, 255),
        ),
        ColorMode::Cmyk => {
            let k = flat_sample(flat, nch, n, 3, i, 0);
            (
                cmyk_component(g0, k) as u8,
                cmyk_component(flat_sample(flat, nch, n, 1, i, 0), k) as u8,
                cmyk_component(flat_sample(flat, nch, n, 2, i, 0), k) as u8,
                flat_sample(flat, nch, n, 4, i, 255),
            )
        },
        ColorMode::Lab => {
            let rgb = lab_rgb(g0, flat_sample(flat, nch, n, 1, i, 128), flat_sample(flat, nch, n, 2, i, 128));
            (rgb.0, rgb.1, rgb.2, flat_sample(flat, nch, n, 3, i, 255))
        },
        ColorMode::Indexed => if nch >= 1 {
            let rgb = indexed_rgb(palette, g0);
            (rgb.0, rgb.1, rgb.2, 255)
        } else {
            (255, 255, 255, 255)
        },
        ColorMode::Grayscale | ColorMode::Bitmap => if nch >= 1 {
            (g0, g0, g0, flat_sample(flat, nch, n, 1, i, 255))
        } else {
            (255, 255, 255, 255)
        },
        _ => (255, 255, 255, 255),
    }
}

/// The RGBA bytes of the composite image at `p`. Where no sample data can be
/// read the image is opaque white.
pub open spec fn composite_spec(s: Seq<u8>, p: int, h: PsdHeader, palette: Seq<u8>) -> Result<Seq<u8>, PsdError> {
    let n = h.width as int * h.height as int;
    if n * 4 > usize::MAX {
        Err(PsdError::InvalidLayerData)
    } else {
        match composite_data(s, p, h) {
            Err(e) => Err(e),
            Ok(None) => Ok(Seq::new((4 * n) as nat, |_k: int| 255u8)),
            Ok(Some(flat)) => Ok(
                flatten(
                    Seq::new(
                        n as nat,
                        |i: int| composite_pixel(h.color_mode, flat, h.channels as int, n, palette, i),
                    ),
                ),
            ),
        }
    }
}

fn flat_at(flat: &Vec<u8>, nch: u16, n: usize, c: u16, i: usize, d: u8) -> (r: u8)
    ensures
        r == flat_sample(flat@, nch as int, n as int, c as int, i as int, d),
{
    if c < nch {
        assert(c as int * n as int <= 0xffff * 0xffff_ffff_ffff_ffff) by (nonlinear_arith)
            requires
                c <= 0xffff,
                n <= 0xffff_ffff_ffff_ffff,
        ;
        let k: u128 = c as u128 * n as u128 + i as u128;
        if k < flat.len() as u128 {
            return flat[k as usize];
        }
    }
    d
}

fn composite_pixel_at(mode: ColorMode, flat: &Vec<u8>, nch: u16, n: usize, palette: &[u8], i: usize) -> (r:
    (u8, u8, u8, u8))
    ensures
        r == composite_pixel(mode, flat@, nch as int, n as int, palette@, i as int),
{
    let g0 = flat_at(flat, nch, n, 0, i, 0);
    match mode {
        ColorMode::Rgb => (
            flat_at(flat, nch, n, 0, i, 255),
            flat_at(flat, nch, n, 1, i, 255),
            flat_at(flat, nch, n, 2, i, 255),
            flat_at(flat, nch, n, 3, i, 255),
        ),
        ColorMode::Cmyk => {
            let rgb = cmyk_to_rgb(
                g0,
                flat_at(flat, nch, n, 1, i, 0),
                flat_at(flat, nch, n, 2, i, 0),
                flat_at(flat, nch, n, 3, i, 0),
            );
            (rgb.0, rgb.1, rgb.2, flat_at(flat, nch, n, 4, i, 255))
        },
        ColorMode::Lab => {
            let rgb = lab_to_rgb(g0, flat_at(flat, nch, n, 1, i, 128), flat_at(flat, nch, n, 2, i, 128));
            (rgb.0, rgb.1, rgb.2, flat_at(flat, nch, n, 3, i, 255))
        },
        ColorMode::Indexed => if nch >= 1 {
            let rgb = indexed_to_rgb(palette, g0);
            (rgb.0, rgb.1, rgb.2, 255)
        } else {
            (255, 255, 255, 255)
        },
        ColorMode::Grayscale | ColorMode::Bitmap => if nch >= 1 {
            (g0, g0, g0, flat_at(flat, nch, n, 1, i, 255))
        } else {
            (255, 255, 255, 255)
        },
        _ => (255, 255, 255, 255),
    }
}

impl<'a> PsdParser<'a> {
    /// Reads the composite's sample data at the current position.
    #[verifier::rlimit(30)]
    fn read_composite_data(&mut self, header: &PsdHeader) -> (r: Result<Option<Vec<u8>>, PsdError>)
        requires
            header_wf(*header),
        ensures
            final(self).input() == old(self).input(),
            match r {
                Ok(Some(v)) => composite_data(old(self).input(), old(self).position(), *header)
                    == Ok::<Option<Seq<u8>>, PsdError>(Some(v@)),
                Ok(None) => composite_data(old(self).input(), old(self).position(), *header) == Ok::<
                    Option<Seq<u8>>,
                    PsdError,
                >(None),
                Err(e) => composite_data(old(self).input(), old(self).position(), *header) == Err::<
                    Option<Seq<u8>>,
                    PsdError,
                >(e),
            },
    {
        let ghost s = self.input();
        let ghost p = self.position();
        if !self.has(2) {
            return Ok(None);
        }
        let comp = self.read_u16()?;
        let bps: u64 = if header.depth == 16 { 2 } else { 1 };
        if comp == 0 {
            assert(header.channels as int * header.width as int * header.height as int
                <= 0xffff * 0xffff_ffff * 0xffff_ffff) by (nonlinear_arith)
                requires
                    header.channels <= 0xffff,
                    header.width <= 0xffff_ffff,
                    header.height <= 0xffff_ffff,
            ;
            assert(header.channels as int * header.width as int <= 0xffff * 0xffff_ffff) by (nonlinear_arith)
                requires
                    header.channels <= 0xffff,
                    header.width <= 0xffff_ffff,
            ;
            let total: u128 = header.channels as u128 * header.width as u128 * header.height as u128
                * bps as u128;
            proof {
                assert(header.channels as int * header.width as int * header.height as int * bps
                    == header.channels as int * (header.width as int * header.height as int) * bps) by (nonlinear_arith);
            }
            if !self.has_wide(total) {
                return Err(PsdError::UnexpectedEndOfFile);
            }
            let _len = self.len();
            let _pos = self.pos();
            let bytes = self.read_bytes(total as usize)?;
            let v = crate::channel::downsample_bytes(vstd::slice::slice_to_vec(bytes), header.depth);
            Ok(Some(v))
        } else if comp == 1 {
            assert(header.channels as int * header.height as int <= 0xffff * 0xffff_ffff) by (nonlinear_arith)
                requires
                    header.channels <= 0xffff,
                    header.height <= 0xffff_ffff,
            ;
            let count: u64 = header.channels as u64 * header.height as u64;
            let rb: u64 = header.width as u64 * bps;
            if count == 0 {
                let rows = self.read_rle_rows(0, 0)?;
                proof {
                    lemma_rle_rows_len(s, p + 2, p + 2, 0, 0);
                    assert(rows@ =~= Seq::<u8>::empty());
                    assert(rle_block(s, p + 2, 0, header.width as int * bps as int) == Ok::<(Seq<u8>, int), PsdError>((Seq::<u8>::empty(), p + 2)));
                }
                let v = crate::channel::downsample_bytes(rows, header.depth);
                return Ok(Some(v));
            }
            if rb > usize::MAX as u64 {
                return Err(PsdError::InvalidLayerData);
            }
            let rows = self.read_rle_rows(count, rb as usize)?;
            let v = crate::channel::downsample_bytes(rows, header.depth);
            Ok(Some(v))
        } else if comp == 2 || comp == 3 {
            let _len = self.len();
            let here = self.pos();
            let bytes = self.read_bytes(self.len() - here)?;
            assert(bytes@ =~= s.subrange(p + 2, s.len() as int));
            match inflate(bytes) {
                None => Err(PsdError::ZipError),
                Some(z) => {
                    let mut z = z;
                    let rb: u64 = header.width as u64 * bps;
                    if comp == 3 {
                        if rb == 0 {
                            assert(undelta(z@, 0) =~= z@);
                        } else if rb > usize::MAX as u64 {
                            return Err(PsdError::InvalidLayerData);
                        } else {
                            undo_delta(&mut z, rb as usize);
                        }
                    }
                    let v = crate::channel::downsample_bytes(z, header.depth);
                    Ok(Some(v))
                },
            }
        } else {
            Ok(None)
        }
    }

    /// Decodes the composite image at the current position into RGBA bytes.
    #[verifier::rlimit(30)]
    pub(crate) fn parse_composite(&mut self, header: &PsdHeader, palette: &[u8]) -> (r: Result<
        Vec<u8>,
        PsdError,
    >)
        requires
            header_wf(*header),
        ensures
            final(self).input() == old(self).input(),
            match r {
                Ok(v) => composite_spec(old(self).input(), old(self).position(), *header, palette@)
                    == Ok::<Seq<u8>, PsdError>(v@),
                Err(e) => composite_spec(old(self).input(), old(self).position(), *header, palette@)
                    == Err::<Seq<u8>, PsdError>(e),
            },
    {
        assert(header.width as int * header.height as int <= 0xffff_ffff * 0xffff_ffff) by (nonlinear_arith)
            requires
                header.width <= 0xffff_ffff,
                header.height <= 0xffff_ffff,
        ;
        let n64: u64 = header.width as u64 * header.height as u64;
        if n64 > (usize::MAX / 4) as u64 {
            return Err(PsdError::InvalidLayerData);
        }
        let n: usize = n64 as usize;
        let data = self.read_composite_data(header)?;
        match data {
            None => {
                let mut out: Vec<u8> = Vec::new();
                let mut k: usize = 0;
                while k < 4 * n
                    invariant
                        k <= 4 * n,
                        n * 4 <= usize::MAX,
                        out@ =~= Seq::new(k as nat, |_k: int| 255u8),
                    decreases 4 * n - k,
                {
                    out.push(255u8);
                    k = k + 1;
                }
                Ok(out)
            },
            Some(flat) => {
                let ghost pixels = Seq::new(
                    n as nat,
                    |i: int| composite_pixel(header.color_mode, flat@, header.channels as int, n as int, palette@, i),
                );
                let mut out: Vec<u8> = Vec::new();
                let mut i: usize = 0;
                while i < n
                    invariant
                        i <= n,
                        pixels.len() == n,
                        pixels == Seq::new(
                            n as nat,
                            |i: int| composite_pixel(header.color_mode, flat@, header.channels as int, n as int, palette@, i),
                        ),
                        out@ == flatten(pixels.subrange(0, i as int)),
                    decreases n - i,
                {
                    let px = composite_pixel_at(header.color_mode, &flat, header.channels, n, palette, i);
                    proof {
                        crate::pixels::lemma_flatten_push(pixels.subrange(0, i as int), px);
                        assert(pixels.subrange(0, i as int).push(px) =~= pixels.subrange(0, i + 1));
                    }
                    out.push(px.0);
                    out.push(px.1);
                    out.push(px.2);
                    out.push(px.3);
                    i = i + 1;
                }
                assert(pixels.subrange(0, n as int) =~= pixels);
                Ok(out)
            },
        }
    }
}

} // verus!
