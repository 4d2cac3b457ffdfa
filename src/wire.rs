//! Network byte order and the addresses that travel in frames.
use vstd::prelude::*;

verus! {

/// An IP address as its octets.
pub enum IpAddress {
    V4([u8; 4]),
    V6([u8; 16]),
}

/// An IP address and a UDP port.
pub struct SockAddr {
    pub ip: IpAddress,
    pub port: u16,
}

impl IpAddress {
    /// The address's octets, in network order.
    pub open spec fn octets_spec(&self) -> Seq<u8> {
        match self {
            IpAddress::V4(a) => a@,
            IpAddress::V6(a) => a@,
        }
    }

    pub open spec fn is_v4_spec(&self) -> bool {
        self is V4
    }

    pub fn is_ipv4(&self) -> (r: bool)
        ensures
            r == self.is_v4_spec(),
    {
        match self {
            IpAddress::V4(_) => true,
            IpAddress::V6(_) => false,
        }
    }

    /// The octets, 4 for IPv4 and 16 for IPv6.
    pub fn octets(&self) -> (r: Vec<u8>)
        ensures
            r@ == self.octets_spec(),
            r@.len() == if self.is_v4_spec() {
                4int
            } else {
                16int
            },
    {
        let mut r: Vec<u8> = Vec::new();
        match self {
            IpAddress::V4(a) => push_all(&mut r, a.as_slice()),
            IpAddress::V6(a) => push_all(&mut r, a.as_slice()),
        }
        r
    }
}

/// The address whose octets are `s`, which hold 4 or 16 bytes.
pub open spec fn ip_of_octets(s: Seq<u8>) -> IpAddress {
    if s.len() == 4 {
        IpAddress::V4([s[0], s[1], s[2], s[3]])
    } else {
        IpAddress::V6(
            [
                s[0],
                s[1],
                s[2],
                s[3],
                s[4],
                s[5],
                s[6],
                s[7],
                s[8],
                s[9],
                s[10],
                s[11],
                s[12],
                s[13],
                s[14],
                s[15],
            ],
        )
    }
}

/// Reads the address of `len` octets (4 or 16) at `at`.
pub fn read_ip(buf: &[u8], at: usize, len: usize) -> (r: IpAddress)
    requires
        len == 4 || len == 16,
        at + len <= buf@.len(),
    ensures
        r == ip_of_octets(buf@.subrange(at as int, at + len)),
        r.octets_spec() == buf@.subrange(at as int, at + len),
{
    let ghost s = buf@.subrange(at as int, at + len);
    if len == 4 {
        let a = [buf[at], buf[at + 1], buf[at + 2], buf[at + 3]];
        assert(a@ =~= s);
        IpAddress::V4(a)
    } else {
        let a = [
            buf[at],
            buf[at + 1],
            buf[at + 2],
            buf[at + 3],
            buf[at + 4],
            buf[at + 5],
            buf[at + 6],
            buf[at + 7],
            buf[at + 8],
            buf[at + 9],
            buf[at + 10],
            buf[at + 11],
            buf[at + 12],
            buf[at + 13],
            buf[at + 14],
            buf[at + 15],
        ];
        assert(a@ =~= s);
        IpAddress::V6(a)
    }
}

pub open spec fn be_u16(v: u16) -> Seq<u8> {
    seq![(v >> 8u16) as u8, v as u8]
}

pub open spec fn be_u32(v: u32) -> Seq<u8> {
    seq![(v >> 24u32) as u8, (v >> 16u32) as u8, (v >> 8u32) as u8, v as u8]
}

pub open spec fn be_u64(v: u64) -> Seq<u8> {
    seq![
        (v >> 56u64) as u8,
        (v >> 48u64) as u8,
        (v >> 40u64) as u8,
        (v >> 32u64) as u8,
        (v >> 24u64) as u8,
        (v >> 16u64) as u8,
        (v >> 8u64) as u8,
        v as u8,
    ]
}

/// `s` with the big-endian 16-bit value `v` written at `p`.
pub open spec fn put_u16(s: Seq<u8>, p: int, v: u16) -> Seq<u8> {
    s.update(p, (v >> 8u16) as u8).update(p + 1, (v & 0xFFu16) as u8)
}

/// Reading back a value written with `put_u16` gives it.
pub proof fn lemma_put_u16_read(s: Seq<u8>, p: int, v: u16)
    requires
        0 <= p,
        p + 2 <= s.len(),
    ensures
        u16_at(put_u16(s, p, v), p) == v,
{
    let t = put_u16(s, p, v);
    let b0 = t[p];
    let b1 = t[p + 1];
    assert(((b0 as u16) << 8u16) | (b1 as u16) == v) by (bit_vector)
        requires
            b0 == (v >> 8u16) as u8,
            b1 == (v & 0xFFu16) as u8,
    ;
}

/// Writes the big-endian 16-bit value `v` at `at`.
pub fn set_u16(buf: &mut Vec<u8>, at: usize, v: u16)
    requires
        at + 2 <= old(buf)@.len(),
    ensures
        final(buf)@ == put_u16(old(buf)@, at as int, v),
{
    let len = buf.len();
    assert(at + 1 < len);
    buf[at] = (v >> 8) as u8;
    buf[at + 1] = (v & 0xFF) as u8;
}

/// The big-endian 16-bit value at `i`.
pub open spec fn u16_at(s: Seq<u8>, i: int) -> u16 {
    ((s[i] as u16) << 8u16) | (s[i + 1] as u16)
}

/// The big-endian 32-bit value at `i`.
pub open spec fn u32_at(s: Seq<u8>, i: int) -> u32 {
    ((s[i] as u32) << 24u32) | ((s[i + 1] as u32) << 16u32) | ((s[i + 2] as u32) << 8u32) | (s[i
        + 3] as u32)
}

/// The big-endian 64-bit value at `i`.
pub open spec fn u64_at(s: Seq<u8>, i: int) -> u64 {
    ((u32_at(s, i) as u64) << 32u64) | (u32_at(s, i + 4) as u64)
}

pub proof fn lemma_be_u16_round_trip(s: Seq<u8>, i: int, v: u16)
    requires
        0 <= i,
        i + 2 <= s.len(),
        s.subrange(i, i + 2) == be_u16(v),
    ensures
        u16_at(s, i) == v,
{
    assert(s[i] == be_u16(v)[0] && s[i + 1] == be_u16(v)[1]);
    let b0 = s[i];
    let b1 = s[i + 1];
    assert(((b0 as u16) << 8u16) | (b1 as u16) == v) by (bit_vector)
        requires
            b0 == (v >> 8u16) as u8,
            b1 == v as u8,
    ;
}

pub proof fn lemma_be_u32_round_trip(s: Seq<u8>, i: int, v: u32)
    requires
        0 <= i,
        i + 4 <= s.len(),
        s.subrange(i, i + 4) == be_u32(v),
    ensures
        u32_at(s, i) == v,
{
    assert(s[i] == be_u32(v)[0] && s[i + 1] == be_u32(v)[1] && s[i + 2] == be_u32(v)[2] && s[i
        + 3] == be_u32(v)[3]);
    let b0 = s[i];
    let b1 = s[i + 1];
    let b2 = s[i + 2];
    let b3 = s[i + 3];
    assert(((b0 as u32) << 24u32) | ((b1 as u32) << 16u32) | ((b2 as u32) << 8u32) | (b3 as u32)
        == v) by (bit_vector)
        requires
            b0 == (v >> 24u32) as u8,
            b1 == (v >> 16u32) as u8,
            b2 == (v >> 8u32) as u8,
            b3 == v as u8,
    ;
}

pub proof fn lemma_be_u64_round_trip(s: Seq<u8>, i: int, v: u64)
    requires
        0 <= i,
        i + 8 <= s.len(),
        s.subrange(i, i + 8) == be_u64(v),
    ensures
        u64_at(s, i) == v,
{
    let hi = (v >> 32u64) as u32;
    let lo = v as u32;
    assert(be_u64(v) =~= be_u32(hi) + be_u32(lo)) by {
        assert((v >> 56u64) as u8 == (hi >> 24u32) as u8 && (v >> 48u64) as u8 == (hi >> 16u32) as u8
            && (v >> 40u64) as u8 == (hi >> 8u32) as u8 && (v >> 32u64) as u8 == hi as u8
            && (v >> 24u64) as u8 == (lo >> 24u32) as u8 && (v >> 16u64) as u8 == (lo >> 16u32) as u8
            && (v >> 8u64) as u8 == (lo >> 8u32) as u8 && v as u8 == lo as u8) by (bit_vector)
            requires
                hi == (v >> 32u64) as u32,
                lo == v as u32,
        ;
    }
    assert(s.subrange(i, i + 4) =~= be_u32(hi));
    assert(s.subrange(i + 4, i + 8) =~= be_u32(lo));
    lemma_be_u32_round_trip(s, i, hi);
    lemma_be_u32_round_trip(s, i + 4, lo);
    assert(((hi as u64) << 32u64) | (lo as u64) == v) by (bit_vector)
        requires
            hi == (v >> 32u64) as u32,
            lo == v as u32,
    ;
}

/// Appends the bytes of `src`.
pub fn push_all(dst: &mut Vec<u8>, src: &[u8])
    ensures
        final(dst)@ == old(dst)@ + src@,
{
    let ghost start = dst@;
    let mut i: usize = 0;
    while i < src.len()
        invariant
            i <= src@.len(),
            dst@ == start + src@.subrange(0, i as int),
        decreases src@.len() - i,
    {
        dst.push(src[i]);
        i = i + 1;
        assert(dst@ =~= start + src@.subrange(0, i as int));
    }
    assert(src@.subrange(0, src@.len() as int) =~= src@);
}

pub fn push_u16(dst: &mut Vec<u8>, v: u16)
    ensures
        final(dst)@ == old(dst)@ + be_u16(v),
{
    dst.push((v >> 8) as u8);
    dst.push(v as u8);
    assert(final(dst)@ =~= old(dst)@ + be_u16(v));
}

pub fn push_u32(dst: &mut Vec<u8>, v: u32)
    ensures
        final(dst)@ == old(dst)@ + be_u32(v),
{
    dst.push((v >> 24) as u8);
    dst.push((v >> 16) as u8);
    dst.push((v >> 8) as u8);
    dst.push(v as u8);
    assert(final(dst)@ =~= old(dst)@ + be_u32(v));
}

pub fn push_u64(dst: &mut Vec<u8>, v: u64)
    ensures
        final(dst)@ == old(dst)@ + be_u64(v),
{
    dst.push((v >> 56) as u8);
    dst.push((v >> 48) as u8);
    dst.push((v >> 40) as u8);
    dst.push((v >> 32) as u8);
    dst.push((v >> 24) as u8);
    dst.push((v >> 16) as u8);
    dst.push((v >> 8) as u8);
    dst.push(v as u8);
    assert(final(dst)@ =~= old(dst)@ + be_u64(v));
}

pub fn read_u16(buf: &[u8], at: usize) -> (r: u16)
    requires
        at + 2 <= buf@.len(),
    ensures
        r == u16_at(buf@, at as int),
{
    ((buf[at] as u16) << 8) | (buf[at + 1] as u16)
}

pub fn read_u32(buf: &[u8], at: usize) -> (r: u32)
    requires
        at + 4 <= buf@.len(),
    ensures
        r == u32_at(buf@, at as int),
{
    ((buf[at] as u32) << 24) | ((buf[at + 1] as u32) << 16) | ((buf[at + 2] as u32) << 8) | (buf[at
        + 3] as u32)
}

pub fn read_u64(buf: &[u8], at: usize) -> (r: u64)
    requires
        at + 8 <= buf@.len(),
    ensures
        r == u64_at(buf@, at as int),
{
    let len = buf.len();
    assert(at + 4 < len);
    let hi = read_u32(buf, at);
    let lo = read_u32(buf, at + 4);
    ((hi as u64) << 32) | (lo as u64)
}

} // verus!
