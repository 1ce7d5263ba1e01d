//! Decoding of one channel plane: raw, PackBits, zlib, or zlib with row prediction.

use vstd::prelude::*;
use crate::bytes::be_u16;
use crate::cursor::{fits, PsdParser};
use crate::model::PsdError;
use crate::rle::{decode_rle, fit, rle_decoded};

verus! {

/// The bytes that zlib decompression of `d` yields, or `None` where `d` is not
/// a complete, valid zlib stream.
pub uninterp spec fn zlib_inflated(d: Seq<u8>) -> Option<Seq<u8>>;

/// Relies on flate2's `read::ZlibDecoder`, drained with `Read::read_to_end`:
/// the decompressed bytes of the zlib stream in `d`, or an error for a corrupt
/// or truncated one. The outcome depends on the bytes of `d` alone.
#[verifier::external_body]
pub(crate) fn inflate(d: &[u8]) -> (r: Option<Vec<u8>>)
    ensures
        match r {
            Some(v) => zlib_inflated(d@) == Some(v@),
            None => zlib_inflated(d@) is None,
        },
{
    let mut decoder = flate2::read::ZlibDecoder::new(d);
    let mut out = Vec::new();
    match std::io::Read::read_to_end(&mut decoder, &mut out) {
        Ok(_) => Some(out),
        Err(_) => None,
    }
}

/// Byte `i` after undoing horizontal prediction on rows of `rl` bytes: the sum,
/// modulo 256, of the bytes of its row up to and including it.
pub open spec fn row_sum(z: Seq<u8>, rl: int, i: int) -> u8
    decreases i,
{
    if i <= 0 || rl <= 0 || i % rl == 0 {
        z[i]
    } else {
        ((row_sum(z, rl, i - 1) as int + z[i] as int) % 256) as u8
    }
}

/// `z` with horizontal prediction undone on each row of `rl` bytes.
pub open spec fn undelta(z: Seq<u8>, rl: int) -> Seq<u8> {
    Seq::new(z.len(), |i: int| row_sum(z, rl, i))
}

/// A row stored as differences: the first byte as is, every later byte minus
/// its left neighbour, modulo 256.
pub open spec fn delta_encoded(row: Seq<u8>) -> Seq<u8> {
    Seq::new(
        row.len(),
        |i: int| if i == 0 { row[0] } else { ((row[i] as int - row[i - 1] as int + 256) % 256) as u8 },
    )
}

/// Undoing the prediction of a row that was stored as differences gives the row back.
pub proof fn lemma_delta_round_trip(row: Seq<u8>)
    requires
        row.len() >= 1,
    ensures
        undelta(delta_encoded(row), row.len() as int) == row,
{
    let z = delta_encoded(row);
    let rl = row.len() as int;
    assert forall|i: int| 0 <= i < rl implies row_sum(z, rl, i) == row[i] by {
        lemma_row_sum_prefix(row, i);
    }
    assert(undelta(z, rl) =~= row);
}

proof fn lemma_row_sum_prefix(row: Seq<u8>, i: int)
    requires
        0 <= i < row.len(),
    ensures
        row_sum(delta_encoded(row), row.len() as int, i) == row[i],
    decreases i,
{
    let rl = row.len() as int;
    if i > 0 {
        lemma_row_sum_prefix(row, i - 1);
        assert(i % rl == i) by {
            vstd::arithmetic::div_mod::lemma_small_mod(i as nat, rl as nat);
        }
    }
}

/// Stores one row as differences (the inverse of the row prediction).
pub fn delta_encode_row(row: &[u8]) -> (r: Vec<u8>)
    ensures
        r@ == delta_encoded(row@),
{
    let mut out: Vec<u8> = Vec::new();
    let mut i: usize = 0;
    while i < row.len()
        invariant
            i <= row@.len(),
            out@ == delta_encoded(row@).subrange(0, i as int),
        decreases row@.len() - i,
    {
        let v = if i == 0 { row[0] } else { ((row[i] as u16 + 256 - row[i - 1] as u16) % 256) as u8 };
        out.push(v);
        i = i + 1;
        assert(out@ =~= delta_encoded(row@).subrange(0, i as int));
    }
    assert(out@ =~= delta_encoded(row@));
    out
}

/// Undoes horizontal prediction in place, on rows of `rl` bytes.
pub fn undo_delta(z: &mut Vec<u8>, rl: usize)
    requires
        rl > 0,
    ensures
        final(z)@ == undelta(old(z)@, rl as int),
{
    let ghost z0 = z@;
    let mut i: usize = 0;
    while i < z.len()
        invariant
            z@.len() == z0.len(),
            i <= z0.len(),
            rl > 0,
            forall|j: int| 0 <= j < i ==> z@[j] == row_sum(z0, rl as int, j),
            forall|j: int| i <= j < z0.len() ==> z@[j] == z0[j],
        decreases z0.len() - i,
    {
        if i > 0 && i % rl != 0 {
            let v = ((z[i] as u16 + z[i - 1] as u16) % 256) as u8;
            z.set(i, v);
            assert(row_sum(z0, rl as int, i as int) == ((row_sum(z0, rl as int, i - 1) as int
                + z0[i as int] as int) % 256) as u8);
        }
        assert(z@[i as int] == row_sum(z0, rl as int, i as int));
        i = i + 1;
    }
    assert(z@ =~= undelta(z0, rl as int));
}

/// The high byte of each 2-byte big-endian sample where samples have 16 bits;
/// the bytes as they are otherwise.
pub open spec fn downsampled(d: Seq<u8>, depth: int) -> Seq<u8> {
    if depth == 16 { Seq::new(d.len() / 2, |i: int| d[2 * i]) } else { d }
}

/// Bytes per sample.
pub open spec fn sample_bytes(depth: int) -> int {
    if depth == 16 { 2 } else { 1 }
}

pub(crate) fn downsample_bytes(d: Vec<u8>, depth: u16) -> (r: Vec<u8>)
    ensures
        r@ == downsampled(d@, depth as int),
{
    if depth != 16 {
        return d;
    }
    let mut out: Vec<u8> = Vec::new();
    let dl = d.len();
    let half = dl / 2;
    let mut i: usize = 0;
    while i < half
        invariant
            dl == d@.len(),
            half == d@.len() / 2,
            i <= half,
            out@ =~= Seq::new(i as nat, |k: int| d@[2 * k]),
        decreases half - i,
    {
        out.push(d[2 * i]);
        i = i + 1;
    }
    out
}

/// `d` cut or zero-padded to `n` bytes.
pub fn fit_vec(d: Vec<u8>, n: usize) -> (r: Vec<u8>)
    ensures
        r@ == fit(d@, n as int),
{
    let mut out = d;
    let ghost d0 = out@;
    if out.len() >= n {
        out.truncate(n);
    } else {
        while out.len() < n
            invariant
                d0.len() <= out@.len() <= n,
                out@ =~= d0 + Seq::new((out@.len() - d0.len()) as nat, |_k: int| 0u8),
            decreases n - out@.len(),
        {
            out.push(0u8);
        }
    }
    assert(out@ =~= fit(d0, n as int));
    out
}

/// The decoded bytes of the first `k` PackBits rows whose lengths stand in the
/// table at `table`, rows starting at `start`, each decoded to `rb` bytes; and
/// the position after them.
pub open spec fn rle_rows(s: Seq<u8>, table: int, start: int, k: nat, rb: int) -> Result<
    (Seq<u8>, int),
    PsdError,
>
    decreases k,
{
    if k == 0 {
        Ok((Seq::empty(), start))
    } else {
        match rle_rows(s, table, start, (k - 1) as nat, rb) {
            Err(e) => Err(e),
            Ok((acc, q)) => {
                let l = be_u16(s, table + 2 * (k - 1));
                if !fits(s, q, l) {
                    Err(PsdError::UnexpectedEndOfFile)
                } else {
                    Ok((acc + rle_decoded(s.subrange(q, q + l), rb), q + l))
                }
            },
        }
    }
}

/// A table of `count` 16-bit row lengths at `p`, then the PackBits rows that
/// it describes, each decoded to `rb` bytes; and the position after them.
pub open spec fn rle_block(s: Seq<u8>, p: int, count: int, rb: int) -> Result<(Seq<u8>, int), PsdError> {
    if !fits(s, p, 2 * count) {
        Err(PsdError::UnexpectedEndOfFile)
    } else {
        rle_rows(s, p, p + 2 * count, count as nat, rb)
    }
}

/// Every decoded PackBits row holds `rb` bytes.
pub proof fn lemma_rle_rows_len(s: Seq<u8>, table: int, start: int, k: nat, rb: int)
    requires
        rb >= 0,
        rle_rows(s, table, start, k, rb) is Ok,
    ensures
        rle_rows(s, table, start, k, rb)->Ok_0.0.len() == k * rb,
    decreases k,
{
    if k > 0 {
        lemma_rle_rows_len(s, table, start, (k - 1) as nat, rb);
        assert(k * rb == (k - 1) * rb + rb) by (nonlinear_arith);
        let (acc, q) = rle_rows(s, table, start, (k - 1) as nat, rb)->Ok_0;
        let l = be_u16(s, table + 2 * (k - 1));
        let d = s.subrange(q, q + l);
        assert(rle_decoded(d, rb).len() == rb);
        assert(rle_rows(s, table, start, k, rb)->Ok_0.0 == acc + rle_decoded(d, rb));
        assert(acc.len() == (k - 1) * rb);
        assert((acc + rle_decoded(d, rb)).len() == k * rb);
    } else {
        assert(k * rb == 0) by (nonlinear_arith)
            requires
                k == 0,
        ;
    }
}

/// The plane of `w * h` samples that a channel of `len` encoded bytes at `p`
/// decodes to. Data that ends early is zero-padded; an unknown compression
/// tag gives a zero plane.
pub open spec fn channel_plane(s: Seq<u8>, p: int, w: int, h: int, len: int, depth: int) -> Result<
    Seq<u8>,
    PsdError,
> {
    let n = w * h;
    let zeros = Seq::new(n as nat, |_k: int| 0u8);
    if len < 2 || w == 0 || h == 0 {
        if len > 0 && !fits(s, p, len) {
            Err(PsdError::UnexpectedEndOfFile)
        } else {
            Ok(zeros)
        }
    } else if !fits(s, p, 2) {
        Err(PsdError::UnexpectedEndOfFile)
    } else {
        let tag = be_u16(s, p);
        let rb = w * sample_bytes(depth);
        if tag == 0 {
            if !fits(s, p + 2, len - 2) {
                Err(PsdError::UnexpectedEndOfFile)
            } else {
                Ok(fit(downsampled(s.subrange(p + 2, p + len), depth), n))
            }
        } else if tag == 1 {
            match rle_block(s, p + 2, h, rb) {
                Err(e) => Err(e),
                Ok((rows, _q)) => Ok(fit(downsampled(rows, depth), n)),
            }
        } else if tag == 2 || tag == 3 {
            if !fits(s, p + 2, len - 2) {
                Err(PsdError::UnexpectedEndOfFile)
            } else {
                match zlib_inflated(s.subrange(p + 2, p + len)) {
                    None => Err(PsdError::ZipError),
                    Some(z) => {
                        let z2 = if tag == 3 { undelta(z, rb) } else { z };
                        Ok(fit(downsampled(z2, depth), n))
                    },
                }
            }
        } else {
            Ok(zeros)
        }
    }
}

proof fn lemma_rle_rows_err(s: Seq<u8>, table: int, start: int, k: nat, m: nat, rb: int)
    requires
        k <= m,
        rle_rows(s, table, start, k, rb) is Err,
    ensures
        rle_rows(s, table, start, m, rb) == rle_rows(s, table, start, k, rb),
    decreases m - k,
{
    if k < m {
        lemma_rle_rows_err(s, table, start, k, (m - 1) as nat, rb);
    }
}

/// A decoded plane holds exactly `w * h` samples.
pub proof fn lemma_channel_plane_len(s: Seq<u8>, p: int, w: int, h: int, len: int, depth: int)
    requires
        w >= 0,
        h >= 0,
        channel_plane(s, p, w, h, len, depth) is Ok,
    ensures
        channel_plane(s, p, w, h, len, depth)->Ok_0.len() == w * h,
{
    assert(w * h >= 0) by (nonlinear_arith)
        requires
            w >= 0,
            h >= 0,
    ;
}

/// A raw 8-bit channel with fewer data bytes than `w * h` decodes to those
/// bytes followed by zeros up to `w * h`.
pub proof fn lemma_truncated_raw(s: Seq<u8>, p: int, w: int, h: int, len: int)
    requires
        w > 0,
        h > 0,
        len >= 2,
        fits(s, p, len),
        p >= 0,
        be_u16(s, p) == 0,
        len - 2 < w * h,
    ensures
        channel_plane(s, p, w, h, len, 8) == Ok::<Seq<u8>, PsdError>(
            s.subrange(p + 2, p + len) + Seq::new((w * h - (len - 2)) as nat, |_k: int| 0u8),
        ),
{
}

impl<'a> PsdParser<'a> {
    /// Reads a table of `count` row lengths and the PackBits rows after it.
    #[verifier::rlimit(30)]
    pub(crate) fn read_rle_rows(&mut self, count: u64, rb: usize) -> (r: Result<Vec<u8>, PsdError>)
        ensures
            final(self).input() == old(self).input(),
            match r {
                Ok(v) => rle_block(old(self).input(), old(self).position(), count as int, rb as int)
                    == Ok::<(Seq<u8>, int), PsdError>((v@, final(self).position())),
                Err(e) => rle_block(old(self).input(), old(self).position(), count as int, rb as int)
                    == Err::<(Seq<u8>, int), PsdError>(e),
            },
    {
        let ghost s = self.input();
        let ghost p = self.position();
        let _start = self.pos();
        let _total = self.len();
        if count > u64::MAX / 2 || 2 * count > usize::MAX as u64 || !self.has((2 * count) as usize) {
            return Err(PsdError::UnexpectedEndOfFile);
        }
        let table = self.pos();
        self.skip((2 * count) as usize)?;
        let mut rows: Vec<u8> = Vec::new();
        let mut j: u64 = 0;
        while j < count
            invariant
                self.input() == s,
                s == old(self).input(),
                p == old(self).position(),
                table == p,
                j <= count,
                fits(s, p, 2 * count),
                rle_rows(s, p, p + 2 * count, j as nat, rb as int) == Ok::<(Seq<u8>, int), PsdError>(
                    (rows@, self.position()),
                ),
            decreases count - j,
        {
            let _total = self.len();
            let at = table + 2 * (j as usize);
            let l = self.u16_at(at) as usize;
            let bytes = match self.read_bytes(l) {
                Ok(b) => b,
                Err(e) => {
                    proof {
                        assert(rle_rows(s, p, p + 2 * count, (j + 1) as nat, rb as int) is Err);
                        lemma_rle_rows_err(s, p, p + 2 * count, (j + 1) as nat, count as nat, rb as int);
                    }
                    return Err(e);
                },
            };
            let mut row = decode_rle(bytes, rb)?;
            rows.append(&mut row);
            j = j + 1;
        }
        Ok(rows)
    }

    /// Decodes the channel of `len` encoded bytes at the current position into
    /// a plane of `width * height` samples, and moves to the channel's end.
    #[verifier::rlimit(30)]
    pub(crate) fn read_channel_data(&mut self, width: u32, height: u32, len: u64, depth: u16) -> (r:
        Result<Vec<u8>, PsdError>)
        requires
            width as int * height as int * 2 <= usize::MAX,
            old(self).position() + len <= usize::MAX,
        ensures
            final(self).input() == old(self).input(),
            match r {
                Ok(v) => channel_plane(
                    old(self).input(),
                    old(self).position(),
                    width as int,
                    height as int,
                    len as int,
                    depth as int,
                ) == Ok::<Seq<u8>, PsdError>(v@) && final(self).position() == old(self).position()
                    + len,
                Err(e) => channel_plane(
                    old(self).input(),
                    old(self).position(),
                    width as int,
                    height as int,
                    len as int,
                    depth as int,
                ) == Err::<Seq<u8>, PsdError>(e),
            },
    {
        let ghost s = self.input();
        let ghost p = self.position();
        let start = self.pos();
        let end: usize = start + len as usize;
        proof {
            assert((width as int) * (height as int) <= usize::MAX) by (nonlinear_arith)
                requires
                    width as int * height as int * 2 <= usize::MAX,
            ;
            assert((width as int) * 2 <= usize::MAX || height == 0) by (nonlinear_arith)
                requires
                    width as int * height as int * 2 <= usize::MAX,
            ;
        }
        let n: usize = (width as u64 * height as u64) as usize;
        if len < 2 || width == 0 || height == 0 {
            if len > 0 {
                self.skip(len as usize)?;
            }
            self.seek(end);
            let zeros = fit_vec(Vec::new(), n);
            assert(zeros@ =~= Seq::new(n as nat, |_k: int| 0u8));
            return Ok(zeros);
        }
        let compression = self.read_u16()?;
        let rb: usize = if depth == 16 { width as usize * 2 } else { width as usize };
        let data: Vec<u8>;
        if compression == 0 {
            let bytes = self.read_bytes(len as usize - 2)?;
            proof {
                assert(bytes@ =~= s.subrange(p + 2, p + len));
            }
            data = downsample_bytes(vstd::slice::slice_to_vec(bytes), depth);
        } else if compression == 1 {
            let rows = self.read_rle_rows(height as u64, rb)?;
            data = downsample_bytes(rows, depth);
        } else if compression == 2 || compression == 3 {
            let bytes = self.read_bytes(len as usize - 2)?;
            proof {
                assert(bytes@ =~= s.subrange(p + 2, p + len));
            }
            let inflated = inflate(bytes);
            match inflated {
                None => {
                    return Err(PsdError::ZipError);
                },
                Some(z) => {
                    let mut z = z;
                    if compression == 3 {
                        undo_delta(&mut z, rb);
                    }
                    data = downsample_bytes(z, depth);
                },
            }
        } else {
            data = Vec::new();
            assert(fit(data@, n as int) =~= Seq::new(n as nat, |_k: int| 0u8));
        }
        self.seek(end);
        Ok(fit_vec(data, n))
    }
}

} // verus!
