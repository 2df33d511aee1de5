//! Little-endian wire primitives: the byte images of integers and word
//! sequences, and bounds-checked readers and writers over byte buffers.
use vstd::prelude::*;

verus! {

/// The four little-endian bytes of `x`.
pub open spec fn le32(x: u32) -> Seq<u8> {
    seq![
        (x & 0xff) as u8,
        ((x >> 8u32) & 0xff) as u8,
        ((x >> 16u32) & 0xff) as u8,
        ((x >> 24u32) & 0xff) as u8,
    ]
}

/// The two little-endian bytes of `x`.
pub open spec fn le16(x: u16) -> Seq<u8> {
    seq![(x & 0xff) as u16 as u8, ((x >> 8u16) & 0xff) as u16 as u8]
}

/// The concatenated little-endian images of a sequence of words.
pub open spec fn le32s(ws: Seq<u32>) -> Seq<u8>
    decreases ws.len(),
{
    if ws.len() == 0 {
        Seq::empty()
    } else {
        le32s(ws.drop_last()) + le32(ws.last())
    }
}

/// The little-endian `u32` stored at byte offset `i` of `b`.
pub open spec fn u32_at(b: Seq<u8>, i: int) -> u32 {
    (b[i] as u32) | ((b[i + 1] as u32) << 8u32) | ((b[i + 2] as u32) << 16u32) | ((b[i + 3] as u32)
        << 24u32)
}

/// The `k`-th little-endian word of `b`.
pub open spec fn word(b: Seq<u8>, k: int) -> u32 {
    u32_at(b, 4 * k)
}

/// The little-endian `u16` stored at byte offset `i` of `b`.
pub open spec fn u16_at(b: Seq<u8>, i: int) -> u16 {
    (b[i] as u16) | ((b[i + 1] as u16) << 8u16)
}

/// The `u64` made of a low and a high word.
pub open spec fn join64(lo: u32, hi: u32) -> u64 {
    (lo as u64) | ((hi as u64) << 32u64)
}

pub open spec fn lo32(x: u64) -> u32 {
    (x & 0xffff_ffff) as u32
}

pub open spec fn hi32(x: u64) -> u32 {
    (x >> 32u64) as u32
}

pub proof fn lemma_join64(x: u64)
    ensures
        join64(lo32(x), hi32(x)) == x,
{
    assert(((((x & 0xffff_ffff) as u32) as u64) | ((((x >> 32u64) as u32) as u64) << 32u64)) == x)
        by (bit_vector);
}

pub proof fn lemma_u32_at(b: Seq<u8>, i: int, x: u32)
    requires
        0 <= i,
        i + 4 <= b.len(),
        b.subrange(i, i + 4) == le32(x),
    ensures
        u32_at(b, i) == x,
{
    let b0 = b[i];
    let b1 = b[i + 1];
    let b2 = b[i + 2];
    let b3 = b[i + 3];
    assert(b0 == b.subrange(i, i + 4)[0]);
    assert(b1 == b.subrange(i, i + 4)[1]);
    assert(b2 == b.subrange(i, i + 4)[2]);
    assert(b3 == b.subrange(i, i + 4)[3]);
    assert(((b0 as u32) | ((b1 as u32) << 8u32) | ((b2 as u32) << 16u32) | ((b3 as u32) << 24u32))
        == x) by (bit_vector)
        requires
            b0 == (x & 0xff) as u8,
            b1 == ((x >> 8u32) & 0xff) as u8,
            b2 == ((x >> 16u32) & 0xff) as u8,
            b3 == ((x >> 24u32) & 0xff) as u8,
    ;
}

pub proof fn lemma_u16_at(b: Seq<u8>, i: int, x: u16)
    requires
        0 <= i,
        i + 2 <= b.len(),
        b.subrange(i, i + 2) == le16(x),
    ensures
        u16_at(b, i) == x,
{
    let b0 = b[i];
    let b1 = b[i + 1];
    assert(b0 == b.subrange(i, i + 2)[0]);
    assert(b1 == b.subrange(i, i + 2)[1]);
    assert(((b0 as u16) | ((b1 as u16) << 8u16)) == x) by (bit_vector)
        requires
            b0 == (x & 0xff) as u16 as u8,
            b1 == ((x >> 8u16) & 0xff) as u16 as u8,
    ;
}

pub proof fn lemma_le32s_len(ws: Seq<u32>)
    ensures
        le32s(ws).len() == 4 * ws.len(),
    decreases ws.len(),
{
    if ws.len() > 0 {
        lemma_le32s_len(ws.drop_last());
    }
}

/// A buffer that begins with the image of `ws` holds `ws[k]` as its `k`-th word.
pub proof fn lemma_words(ws: Seq<u32>, b: Seq<u8>)
    requires
        4 * ws.len() <= b.len(),
        b.subrange(0, 4 * ws.len() as int) == le32s(ws),
    ensures
        forall|k: int| 0 <= k < ws.len() ==> #[trigger] word(b, k) == ws[k],
    decreases ws.len(),
{
    if ws.len() > 0 {
        let n = ws.len() as int;
        let init = ws.drop_last();
        lemma_le32s_len(init);
        assert(b.subrange(0, 4 * init.len() as int) =~= le32s(init)) by {
            assert(b.subrange(0, 4 * init.len() as int) =~= b.subrange(0, 4 * n).subrange(
                0,
                4 * (n - 1),
            ));
        }
        lemma_words(init, b);
        assert(b.subrange(4 * (n - 1), 4 * n) =~= le32(ws.last())) by {
            assert(b.subrange(4 * (n - 1), 4 * n) =~= b.subrange(0, 4 * n).subrange(
                4 * (n - 1),
                4 * n,
            ));
        }
        lemma_u32_at(b, 4 * (n - 1), ws.last());
        assert forall|k: int| 0 <= k < ws.len() implies #[trigger] word(b, k) == ws[k] by {
            if k < n - 1 {
                assert(word(b, k) == init[k]);
            }
        }
    }
}

/// `le32s` of a concatenation is the concatenation of the images.
pub proof fn lemma_le32s_add(a: Seq<u32>, c: Seq<u32>)
    ensures
        le32s(a + c) == le32s(a) + le32s(c),
    decreases c.len(),
{
    if c.len() == 0 {
        assert(a + c =~= a);
        assert(le32s(a) + le32s(c) =~= le32s(a));
    } else {
        let c0 = c.drop_last();
        lemma_le32s_add(a, c0);
        assert((a + c).drop_last() =~= a + c0);
        assert(le32s(a + c) =~= le32s(a) + le32s(c));
    }
}

/// The word at index `k` of `b`; reads four bytes.
pub fn read_word(b: &[u8], k: usize) -> (r: u32)
    requires
        4 * k + 4 <= b@.len(),
    ensures
        r == word(b@, k as int),
{
    let len = b.len();
    assert(len == b@.len());
    let i = 4 * k;
    (b[i] as u32) | ((b[i + 1] as u32) << 8u32) | ((b[i + 2] as u32) << 16u32) | ((b[i + 3] as u32)
        << 24u32)
}

/// The `u16` at byte offset `i` of `b`.
pub fn read_u16(b: &[u8], i: usize) -> (r: u16)
    requires
        i + 2 <= b@.len(),
    ensures
        r == u16_at(b@, i as int),
{
    (b[i] as u16) | ((b[i + 1] as u16) << 8u16)
}

/// `n` words of `b`, starting at word index `k`.
pub fn read_words(b: &[u8], k: usize, n: usize) -> (r: Vec<u32>)
    requires
        4 * (k + n) <= b@.len(),
    ensures
        r@ == Seq::new(n as nat, |j: int| word(b@, k + j)),
{
    let len = b.len();
    let mut out: Vec<u32> = Vec::new();
    let mut j: usize = 0;
    while j < n
        invariant
            j <= n,
            4 * (k + n) <= b@.len(),
            len == b@.len(),
            out@ == Seq::new(j as nat, |t: int| word(b@, k + t)),
        decreases n - j,
    {
        let w = read_word(b, k + j);
        out.push(w);
        j = j + 1;
        assert(out@ =~= Seq::new(j as nat, |t: int| word(b@, k + t)));
    }
    out
}

/// The `n` bytes of `b` from offset `i`.
pub fn read_bytes(b: &[u8], i: usize, n: usize) -> (r: Vec<u8>)
    requires
        i + n <= b@.len(),
    ensures
        r@ == b@.subrange(i as int, i + n),
{
    let len = b.len();
    let mut out: Vec<u8> = Vec::new();
    let mut j: usize = 0;
    while j < n
        invariant
            j <= n,
            i + n <= b@.len(),
            len == b@.len(),
            out@ == b@.subrange(i as int, i + j),
        decreases n - j,
    {
        out.push(b[i + j]);
        j = j + 1;
        assert(out@ =~= b@.subrange(i as int, i + j));
    }
    out
}

pub fn put_u32(out: &mut Vec<u8>, x: u32)
    ensures
        final(out)@ == old(out)@ + le32(x),
{
    out.push((x & 0xff) as u8);
    out.push(((x >> 8u32) & 0xff) as u8);
    out.push(((x >> 16u32) & 0xff) as u8);
    out.push(((x >> 24u32) & 0xff) as u8);
    assert(out@ =~= old(out)@ + le32(x));
}

pub fn put_u16(out: &mut Vec<u8>, x: u16)
    ensures
        final(out)@ == old(out)@ + le16(x),
{
    out.push((x & 0xff) as u8);
    out.push(((x >> 8u16) & 0xff) as u8);
    assert(out@ =~= old(out)@ + le16(x));
}

pub fn put_words(out: &mut Vec<u8>, ws: &[u32])
    ensures
        final(out)@ == old(out)@ + le32s(ws@),
{
    let mut j: usize = 0;
    while j < ws.len()
        invariant
            j <= ws@.len(),
            out@ == old(out)@ + le32s(ws@.subrange(0, j as int)),
        decreases ws@.len() - j,
    {
        put_u32(out, ws[j]);
        j = j + 1;
        assert(ws@.subrange(0, j as int).drop_last() =~= ws@.subrange(0, j - 1));
        assert(out@ =~= old(out)@ + le32s(ws@.subrange(0, j as int)));
    }
    assert(ws@.subrange(0, j as int) =~= ws@);
}

pub fn put_bytes(out: &mut Vec<u8>, bs: &[u8])
    ensures
        final(out)@ == old(out)@ + bs@,
{
    let mut j: usize = 0;
    while j < bs.len()
        invariant
            j <= bs@.len(),
            out@ == old(out)@ + bs@.subrange(0, j as int),
        decreases bs@.len() - j,
    {
        out.push(bs[j]);
        j = j + 1;
        assert(out@ =~= old(out)@ + bs@.subrange(0, j as int));
    }
    assert(bs@.subrange(0, j as int) =~= bs@);
}

} // verus!
