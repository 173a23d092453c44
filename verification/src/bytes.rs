//! Little-endian and big-endian bytes, and single bits of small integers.
use vstd::prelude::*;

verus! {

/// Bit `n` of `v`, for a power of two `p == 2^n`.
pub open spec fn bit_at(v: int, p: int) -> bool {
    v / p % 2 == 1
}

/// `p` if the bit is set, 0 otherwise.
pub open spec fn weight(b: bool, p: int) -> int {
    if b {
        p
    } else {
        0
    }
}

/// `p` if the bit is set, 0 otherwise.
pub fn weigh8(b: bool, p: u8) -> (r: u8)
    ensures
        r == weight(b, p as int),
{
    if b {
        p
    } else {
        0
    }
}

pub open spec fn le16(v: u16) -> Seq<u8> {
    seq![(v % 0x100) as u8, (v / 0x100) as u8]
}

pub open spec fn le32(v: u32) -> Seq<u8> {
    seq![
        (v % 0x100) as u8,
        (v / 0x100 % 0x100) as u8,
        (v / 0x1_0000 % 0x100) as u8,
        (v / 0x100_0000) as u8,
    ]
}

pub open spec fn le64(v: u64) -> Seq<u8> {
    le32((v % 0x1_0000_0000) as u32) + le32((v / 0x1_0000_0000) as u32)
}

/// The number whose little-endian bytes are the two at the front of `s`.
pub open spec fn from_le16(s: Seq<u8>) -> int {
    s[0] + 0x100 * s[1]
}

/// The number whose little-endian bytes are the four at the front of `s`.
pub open spec fn from_le32(s: Seq<u8>) -> int {
    s[0] + 0x100 * s[1] + 0x1_0000 * s[2] + 0x100_0000 * s[3]
}

/// The number whose little-endian bytes are the eight at the front of `s`.
pub open spec fn from_le64(s: Seq<u8>) -> int {
    from_le32(s) + 0x1_0000_0000 * from_le32(s.skip(4))
}

pub open spec fn from_be16(a: u8, b: u8) -> int {
    a * 0x100 + b
}

pub open spec fn from_be32(a: u8, b: u8, c: u8, d: u8) -> int {
    a * 0x100_0000 + b * 0x1_0000 + c * 0x100 + d
}

pub fn be16(a: u8, b: u8) -> (r: u16)
    ensures
        r == from_be16(a, b),
{
    a as u16 * 0x100 + b as u16
}

pub fn be32(a: u8, b: u8, c: u8, d: u8) -> (r: u32)
    ensures
        r == from_be32(a, b, c, d),
{
    a as u32 * 0x100_0000 + b as u32 * 0x1_0000 + c as u32 * 0x100 + d as u32
}

pub fn push_byte(buf: &mut Vec<u8>, v: u8)
    ensures
        final(buf)@ == old(buf)@ + seq![v],
{
    buf.push(v);
    assert(buf@ =~= old(buf)@ + seq![v]);
}

pub fn push_le16(buf: &mut Vec<u8>, v: u16)
    ensures
        final(buf)@ == old(buf)@ + le16(v),
{
    buf.push((v % 0x100) as u8);
    buf.push((v / 0x100) as u8);
    assert(buf@ =~= old(buf)@ + le16(v));
}

pub fn push_le32(buf: &mut Vec<u8>, v: u32)
    ensures
        final(buf)@ == old(buf)@ + le32(v),
{
    buf.push((v % 0x100) as u8);
    buf.push((v / 0x100 % 0x100) as u8);
    buf.push((v / 0x1_0000 % 0x100) as u8);
    buf.push((v / 0x100_0000) as u8);
    assert(buf@ =~= old(buf)@ + le32(v));
}

pub fn push_le64(buf: &mut Vec<u8>, v: u64)
    ensures
        final(buf)@ == old(buf)@ + le64(v),
{
    push_le32(buf, (v % 0x1_0000_0000) as u32);
    push_le32(buf, (v / 0x1_0000_0000) as u32);
    assert(buf@ =~= old(buf)@ + le64(v));
}

pub fn push_all(buf: &mut Vec<u8>, bytes: &[u8])
    ensures
        final(buf)@ == old(buf)@ + bytes@,
{
    let mut n: usize = 0;
    while n < bytes.len()
        invariant
            n <= bytes.len(),
            buf@ == old(buf)@ + bytes@.take(n as int),
        decreases bytes.len() - n,
    {
        buf.push(bytes[n]);
        proof {
            assert(buf@ =~= old(buf)@ + bytes@.take(n + 1));
        }
        n = n + 1;
    }
    assert(bytes@.take(n as int) =~= bytes@);
}

/// The bytes of 16-bit words, one after the other.
pub open spec fn words(s: Seq<u16>) -> Seq<u8> {
    Seq::new(
        2 * s.len(),
        |i: int|
            if i % 2 == 0 {
                (s[i / 2] % 0x100) as u8
            } else {
                (s[i / 2] / 0x100) as u8
            },
    )
}

pub fn push_words(buf: &mut Vec<u8>, s: &[u16])
    ensures
        final(buf)@ == old(buf)@ + words(s@),
{
    let mut n: usize = 0;
    while n < s.len()
        invariant
            n <= s.len(),
            buf@ == old(buf)@ + words(s@.take(n as int)),
        decreases s.len() - n,
    {
        push_le16(buf, s[n]);
        proof {
            assert(buf@ =~= old(buf)@ + words(s@.take(n + 1)));
        }
        n = n + 1;
    }
    assert(s@.take(n as int) =~= s@);
}

pub open spec fn zeros(n: nat) -> Seq<u8> {
    Seq::new(n, |i: int| 0u8)
}

pub fn push_zeros(buf: &mut Vec<u8>, count: usize)
    ensures
        final(buf)@ == old(buf)@ + zeros(count as nat),
{
    let mut n: usize = 0;
    while n < count
        invariant
            n <= count,
            buf@ == old(buf)@ + zeros(n as nat),
        decreases count - n,
    {
        buf.push(0);
        proof {
            assert(buf@ =~= old(buf)@ + zeros((n + 1) as nat));
        }
        n = n + 1;
    }
    assert(buf@ =~= old(buf)@ + zeros(count as nat));
}

/// Reads the little-endian number at `at`.
pub fn get_le16(bytes: &[u8], at: usize) -> (r: u16)
    requires
        at + 2 <= bytes.len(),
    ensures
        r == from_le16(bytes@.skip(at as int)),
{
    bytes[at] as u16 + 0x100 * bytes[at + 1] as u16
}

/// Reads the little-endian number at `at`.
pub fn get_le32(bytes: &[u8], at: usize) -> (r: u32)
    requires
        at + 4 <= bytes.len(),
    ensures
        r == from_le32(bytes@.skip(at as int)),
{
    bytes[at] as u32 + 0x100 * bytes[at + 1] as u32 + 0x1_0000 * bytes[at + 2] as u32 + 0x100_0000
        * bytes[at + 3] as u32
}

/// Reads the little-endian number at `at`.
pub fn get_le64(bytes: &[u8], at: usize) -> (r: u64)
    requires
        at + 8 <= bytes.len(),
    ensures
        r == from_le64(bytes@.skip(at as int)),
{
    assert(bytes@.skip(at as int).skip(4) =~= bytes@.skip(at + 4));
    get_le32(bytes, at) as u64 + 0x1_0000_0000 * get_le32(bytes, at + 4) as u64
}

/// Writing a number as bytes and reading it back gives the number.
pub proof fn le_round_trip(v16: u16, v32: u32, v64: u64)
    ensures
        from_le16(le16(v16)) == v16,
        from_le32(le32(v32)) == v32,
        from_le64(le64(v64)) == v64,
{
    lemma_le32(v32);
    lemma_le32((v64 % 0x1_0000_0000) as u32);
    lemma_le32((v64 / 0x1_0000_0000) as u32);
    assert(le64(v64).skip(4) =~= le32((v64 / 0x1_0000_0000) as u32));
}

proof fn lemma_le32(v: u32)
    ensures
        from_le32(le32(v)) == v,
{
    let a: int = v as int / 0x100;
    let b: int = v as int / 0x1_0000;
    let c: int = v as int / 0x100_0000;
    assert(b == a / 0x100);
    assert(c == b / 0x100);
}

/// The bytes of `s` with those from `at` on replaced by `data`.
pub open spec fn overwrite(s: Seq<u8>, at: int, data: Seq<u8>) -> Seq<u8> {
    Seq::new(
        s.len(),
        |i: int|
            if at <= i < at + data.len() {
                data[i - at]
            } else {
                s[i]
            },
    )
}

/// What was written is what is read; what lies outside is left alone.
pub proof fn overwrite_reads_back(s: Seq<u8>, at: int, data: Seq<u8>, from: int, to: int)
    requires
        0 <= at,
        at + data.len() <= s.len(),
        0 <= from <= to <= s.len(),
    ensures
        overwrite(s, at, data).subrange(at, at + data.len()) == data,
        to <= at || at + data.len() <= from ==> overwrite(s, at, data).subrange(from, to)
            == s.subrange(from, to),
{
    assert(overwrite(s, at, data).subrange(at, at + data.len()) =~= data);
    if to <= at || at + data.len() <= from {
        assert(overwrite(s, at, data).subrange(from, to) =~= s.subrange(from, to));
    }
}

/// Copies the bytes from `from` up to `to`.
pub fn copy_range(bytes: &Vec<u8>, from: usize, to: usize) -> (r: Vec<u8>)
    requires
        from <= to <= bytes.len(),
    ensures
        r@ == bytes@.subrange(from as int, to as int),
{
    let mut r: Vec<u8> = Vec::new();
    let mut n: usize = from;
    while n < to
        invariant
            from <= n <= to <= bytes.len(),
            r@ == bytes@.subrange(from as int, n as int),
        decreases to - n,
    {
        r.push(bytes[n]);
        proof {
            assert(r@ =~= bytes@.subrange(from as int, n + 1));
        }
        n = n + 1;
    }
    r
}

/// Copies `data` over the bytes from `at` on.
pub fn write_range(bytes: &mut Vec<u8>, at: usize, data: &[u8])
    requires
        at + data.len() <= old(bytes).len(),
    ensures
        final(bytes)@ == overwrite(old(bytes)@, at as int, data@),
{
    let mut n: usize = 0;
    while n < data.len()
        invariant
            n <= data.len(),
            at + data.len() <= bytes.len(),
            bytes@ == overwrite(old(bytes)@, at as int, data@.take(n as int)),
        decreases data.len() - n,
    {
        bytes.set(at + n, data[n]);
        proof {
            assert(bytes@ =~= overwrite(old(bytes)@, at as int, data@.take(n + 1)));
        }
        n = n + 1;
    }
    assert(data@.take(n as int) =~= data@);
    assert(bytes@ =~= overwrite(old(bytes)@, at as int, data@));
}

} // verus!
