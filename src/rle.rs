//! PackBits run-length decoding of one scanline.

use vstd::prelude::*;
use crate::model::PsdError;

verus! {

/// The run header byte read as a signed count.
pub open spec fn run_header(b: u8) -> int {
    if b >= 128 { b as int - 256 } else { b as int }
}

/// Everything that the runs of `d` expand to, in order. A literal header `n >= 0`
/// copies the next `n + 1` bytes (fewer where the input ends), a header
/// `-127 <= n <= -1` repeats the next byte `1 - n` times, and `-128` is ignored.
pub open spec fn packbits(d: Seq<u8>) -> Seq<u8>
    decreases d.len(),
{
    if d.len() == 0 {
        Seq::empty()
    } else {
        let h = run_header(d[0]);
        if h >= 0 {
            let take = if h + 1 <= d.len() - 1 { h + 1 } else { d.len() - 1 };
            d.subrange(1, 1 + take) + packbits(d.subrange(1 + take, d.len() as int))
        } else if h > -128 {
            if d.len() >= 2 {
                Seq::new((1 - h) as nat, |_k: int| d[1]) + packbits(d.subrange(2, d.len() as int))
            } else {
                Seq::empty()
            }
        } else {
            packbits(d.subrange(1, d.len() as int))
        }
    }
}

/// `s` cut to at most `n` items.
pub open spec fn cap(s: Seq<u8>, n: int) -> Seq<u8> {
    if s.len() <= n { s } else { s.subrange(0, n) }
}

/// `s` cut or zero-padded to exactly `n` items.
pub open spec fn fit(s: Seq<u8>, n: int) -> Seq<u8> {
    if s.len() >= n {
        s.subrange(0, n)
    } else {
        s + Seq::new((n - s.len()) as nat, |_k: int| 0u8)
    }
}

/// A scanline of `expected` bytes decoded from the runs in `d`.
pub open spec fn rle_decoded(d: Seq<u8>, expected: int) -> Seq<u8> {
    fit(packbits(d), expected)
}

proof fn lemma_cap_step(out: Seq<u8>, run: Seq<u8>, rest: Seq<u8>, e: int)
    requires
        out.len() <= e,
    ensures
        cap(out + cap(run, e - out.len()) + rest, e) == cap(out + run + rest, e),
        (out + cap(run, e - out.len())).len() <= e,
{
    if run.len() > e - out.len() {
        assert(cap(out + cap(run, e - out.len()) + rest, e) =~= cap(out + run + rest, e));
    } else {
        assert(out + cap(run, e - out.len()) =~= out + run);
    }
}

/// Decodes one PackBits scanline to exactly `expected` bytes; input that ends
/// early leaves the rest zero.
pub fn decode_rle(data: &[u8], expected: usize) -> (r: Result<Vec<u8>, PsdError>)
    ensures
        r is Ok,
        r->Ok_0@ == rle_decoded(data@, expected as int),
{
    let mut out: Vec<u8> = Vec::new();
    let mut i: usize = 0;
    let n = data.len();
    assert(data@.subrange(0, n as int) =~= data@);
    assert(out@ + packbits(data@) =~= packbits(data@));
    while i < n && out.len() < expected
        invariant
            n == data@.len(),
            i <= n,
            out@.len() <= expected,
            cap(out@ + packbits(data@.subrange(i as int, n as int)), expected as int) == cap(
                packbits(data@),
                expected as int,
            ),
        decreases n - i,
    {
        let ghost out0 = out@;
        let ghost i0 = i as int;
        let ghost d = data@.subrange(i0, n as int);
        let b = data[i];
        i = i + 1;
        if b < 128 {
            let avail = n - i;
            let take: usize = if (b as usize) + 1 <= avail { b as usize + 1 } else { avail };
            let room = expected - out.len();
            let k: usize = if take <= room { take } else { room };
            let mut j: usize = 0;
            while j < k
                invariant
                    n == data@.len(),
                    i + take <= n,
                    k <= take,
                    j <= k,
                    out@ == out0 + data@.subrange(i as int, i + j),
                decreases k - j,
            {
                out.push(data[i + j]);
                j = j + 1;
                assert(out@ =~= out0 + data@.subrange(i as int, i + j));
            }
            proof {
                let run = d.subrange(1, 1 + take);
                assert(run =~= data@.subrange(i as int, i + take));
                assert(cap(run, expected - out0.len()) =~= data@.subrange(i as int, i + k));
                assert(d.subrange(1 + take, d.len() as int) =~= data@.subrange(i + take, n as int));
                lemma_cap_step(out0, run, packbits(data@.subrange(i + take, n as int)), expected as int);
                assert(out0 + run + packbits(data@.subrange(i + take, n as int)) =~= out0 + packbits(d));
            }
            i = i + take;
        } else if b > 128 {
            if i < n {
                let v = data[i];
                i = i + 1;
                let count: usize = 257 - b as usize;
                let room = expected - out.len();
                let k: usize = if count <= room { count } else { room };
                let mut j: usize = 0;
                while j < k
                    invariant
                        j <= k,
                        out@ == out0 + Seq::new(j as nat, |_q: int| v),
                    decreases k - j,
                {
                    out.push(v);
                    j = j + 1;
                    assert(out@ =~= out0 + Seq::new(j as nat, |_q: int| v));
                }
                proof {
                    let run = Seq::new(count as nat, |_q: int| v);
                    assert(run =~= Seq::new((1 - run_header(d[0])) as nat, |_k: int| d[1]));
                    assert(cap(run, expected - out0.len()) =~= Seq::new(k as nat, |_q: int| v));
                    assert(d.subrange(2, d.len() as int) =~= data@.subrange(i as int, n as int));
                    lemma_cap_step(out0, run, packbits(data@.subrange(i as int, n as int)), expected as int);
                    assert(out0 + run + packbits(data@.subrange(i as int, n as int)) =~= out0 + packbits(d));
                }
            } else {
                assert(packbits(d) =~= Seq::<u8>::empty());
                assert(data@.subrange(i as int, n as int) =~= Seq::<u8>::empty());
            }
        } else {
            assert(d.subrange(1, d.len() as int) =~= data@.subrange(i as int, n as int));
        }
    }
    proof {
        if i == n {
            assert(data@.subrange(i as int, n as int) =~= Seq::<u8>::empty());
            assert(packbits(Seq::<u8>::empty()) =~= Seq::<u8>::empty());
            assert(out@ + packbits(data@.subrange(i as int, n as int)) =~= out@);
        } else {
            assert(cap(out@ + packbits(data@.subrange(i as int, n as int)), expected as int) =~= out@);
        }
    }
    let ghost before = out@;
    if out.len() < expected {
        out.resize(expected, 0u8);
    }
    assert(out@ =~= fit(packbits(data@), expected as int));
    Ok(out)
}

/// A literal run of `v.len()` bytes, with `1 <= v.len() <= 128`, decodes to
/// exactly those bytes.
pub proof fn lemma_rle_literal_run(v: Seq<u8>)
    requires
        1 <= v.len() <= 128,
    ensures
        rle_decoded(seq![(v.len() - 1) as u8] + v, v.len() as int) == v,
{
    let d = seq![(v.len() - 1) as u8] + v;
    assert(d.subrange(1, 1 + v.len() as int) =~= v);
    assert(d.subrange(1 + v.len() as int, d.len() as int) =~= Seq::<u8>::empty());
    assert(packbits(Seq::<u8>::empty()) =~= Seq::<u8>::empty());
    assert(packbits(d) =~= v);
    assert(fit(v, v.len() as int) =~= v);
}

/// A repeat run whose header stores `1 - n`, with `1 <= n <= 128`, decodes to
/// `n` copies of the byte that follows it.
pub proof fn lemma_rle_repeat_run(n: int, x: u8)
    requires
        1 <= n <= 128,
    ensures
        rle_decoded(seq![((257 - n) % 256) as u8, x], n) == Seq::new(n as nat, |_k: int| x),
{
    let d = seq![((257 - n) % 256) as u8, x];
    assert(packbits(Seq::<u8>::empty()) =~= Seq::<u8>::empty());
    if n == 1 {
        assert(d.subrange(1, 2) =~= seq![x]);
        assert(d.subrange(2, 2) =~= Seq::<u8>::empty());
        assert(packbits(d) =~= Seq::new(n as nat, |_k: int| x));
    } else {
        assert(d.subrange(2, 2) =~= Seq::<u8>::empty());
        assert(packbits(d) =~= Seq::new(n as nat, |_k: int| x));
    }
    assert(fit(Seq::new(n as nat, |_k: int| x), n) =~= Seq::new(n as nat, |_k: int| x));
}

} // verus!
