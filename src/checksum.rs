//! The Internet checksum (RFC 1071) over a byte buffer.
use vstd::prelude::*;

use crate::wire::put_u16;
use crate::MAX_DATAGRAM;

verus! {

/// Sum of the first `k` big-endian 16-bit words of `s`.
pub open spec fn pair_sum(s: Seq<u8>, k: nat) -> nat
    decreases k,
{
    if k == 0 {
        0
    } else {
        pair_sum(s, (k - 1) as nat) + s[2 * k - 2] as nat * 256 + s[2 * k - 1] as nat
    }
}

/// The one's-complement accumulator before carries are folded: every pair of
/// bytes as a big-endian word, plus a final unpaired byte taken as it is.
pub open spec fn word_sum(s: Seq<u8>) -> nat {
    pair_sum(s, s.len() / 2) + if s.len() % 2 == 1 {
        s[s.len() - 1] as nat
    } else {
        0
    }
}

/// Folds the carries of a 32-bit accumulator into 16 bits.
pub open spec fn fold_carries(sum: u32) -> u16 {
    let a = ((sum >> 16u32) + (sum & 0xFFFFu32)) as u32;
    let b = (a + (a >> 16u32)) as u32;
    b as u16
}

/// The Internet checksum of `s`.
pub open spec fn internet_checksum(s: Seq<u8>) -> u16 {
    !fold_carries(word_sum(s) as u32)
}

/// The weight with which the byte at `j` enters `word_sum` of a sequence of length `n`.
pub open spec fn byte_weight(n: nat, j: int) -> int {
    if j % 2 == 0 && j + 1 < n {
        256
    } else {
        1
    }
}

proof fn lemma_pair_sum_bound(s: Seq<u8>, k: nat)
    requires
        2 * k <= s.len(),
    ensures
        pair_sum(s, k) <= k * 65535,
    decreases k,
{
    if k > 0 {
        lemma_pair_sum_bound(s, (k - 1) as nat);
    }
}

/// The accumulator of a buffer of at most 64 KiB stays well inside 32 bits.
pub proof fn lemma_word_sum_bound(s: Seq<u8>)
    requires
        s.len() <= MAX_DATAGRAM,
    ensures
        word_sum(s) <= 32768 * 65535 + 255,
{
    lemma_pair_sum_bound(s, s.len() / 2);
    assert((s.len() / 2) * 65535 <= 32768 * 65535) by (nonlinear_arith)
        requires
            s.len() / 2 <= 32768,
    ;
}

proof fn lemma_pair_sum_update(s: Seq<u8>, j: int, v: u8, k: nat)
    requires
        0 <= j < s.len(),
        2 * k <= s.len(),
    ensures
        pair_sum(s.update(j, v), k) == pair_sum(s, k) + if j < 2 * k {
            (v as int - s[j] as int) * (if j % 2 == 0 {
                256int
            } else {
                1int
            })
        } else {
            0int
        },
    decreases k,
{
    if k > 0 {
        lemma_pair_sum_update(s, j, v, (k - 1) as nat);
    }
}

/// Changing one byte changes the accumulator by the byte's difference times its weight.
pub proof fn lemma_word_sum_update(s: Seq<u8>, j: int, v: u8)
    requires
        0 <= j < s.len(),
    ensures
        word_sum(s.update(j, v)) == word_sum(s) + (v as int - s[j] as int) * byte_weight(
            s.len(),
            j,
        ),
{
    lemma_pair_sum_update(s, j, v, s.len() / 2);
}

/// Folding carries keeps the accumulator's residue modulo 0xFFFF, and yields
/// zero only for a zero accumulator.
pub proof fn lemma_fold_carries(sum: u32)
    ensures
        fold_carries(sum) as int % 65535 == sum as int % 65535,
        fold_carries(sum) == 0 <==> sum == 0,
{
    let hi = sum >> 16u32;
    let lo = sum & 0xFFFFu32;
    assert(sum == hi * 65536 + lo && hi <= 0xFFFF && lo <= 0xFFFF) by (bit_vector)
        requires
            hi == sum >> 16u32,
            lo == sum & 0xFFFFu32,
    ;
    let a = (hi + lo) as u32;
    let ah = a >> 16u32;
    let al = a & 0xFFFFu32;
    assert(a == ah * 65536 + al && ah <= 1 && al <= 0xFFFF && (ah == 1 ==> al <= 0xFFFE))
        by (bit_vector)
        requires
            a == hi + lo,
            hi <= 0xFFFF,
            lo <= 0xFFFF,
            ah == a >> 16u32,
            al == a & 0xFFFFu32,
    ;
    let b = (a + ah) as u32;
    assert(b as u16 == al + ah) by (bit_vector)
        requires
            b == a + ah,
            a == ah * 65536 + al,
            ah <= 1,
            al <= 0xFFFF,
            ah == 1 ==> al <= 0xFFFE,
    ;
    assert(fold_carries(sum) == al + ah);
    assert((hi * 65536 + lo) % 65535 == (hi + lo) % 65535) by (nonlinear_arith);
    assert((ah * 65536 + al) % 65535 == (ah + al) % 65535) by (nonlinear_arith);
}

/// The Internet checksum; the last byte of an odd-length buffer counts as a
/// low-order byte.
pub fn ip_checksum(buf: &[u8]) -> (r: u16)
    requires
        buf@.len() <= MAX_DATAGRAM,
    ensures
        r == internet_checksum(buf@),
{
    let n = buf.len();
    let odd = (n & 1) == 1;
    assert(odd == (n % 2 == 1)) by (bit_vector)
        requires
            odd == ((n & 1) == 1),
    ;
    let len = if odd {
        n - 1
    } else {
        n
    };
    let mut sum: u32 = 0;
    let mut index: usize = 0;
    while index < len
        invariant
            n == buf@.len(),
            n <= MAX_DATAGRAM,
            len == n / 2 * 2,
            index % 2 == 0,
            index <= len,
            sum == pair_sum(buf@, (index / 2) as nat),
            sum <= (index / 2) * 65535,
        decreases len - index,
    {
        let hi = buf[index];
        let lo = buf[index + 1];
        let word = ((hi as u32) << 8u32) | (lo as u32);
        assert(word == hi * 256 + lo) by (bit_vector)
            requires
                word == ((hi as u32) << 8u32) | (lo as u32),
        ;
        assert((index / 2 + 1) * 65535 <= 32768 * 65535) by (nonlinear_arith)
            requires
                index / 2 + 1 <= 32768,
        ;
        sum = sum + word;
        index = index + 2;
    }
    proof {
        lemma_word_sum_bound(buf@);
    }
    if odd {
        sum = sum + buf[index] as u32;
    }
    assert(sum == word_sum(buf@));
    let s0 = sum;
    assert((s0 >> 16u32) <= 0xFFFF && (s0 & 0xFFFFu32) <= 0xFFFF) by (bit_vector);
    sum = (sum >> 16) + (sum & 0xFFFF);
    let s1 = sum;
    assert((s1 >> 16u32) <= 1) by (bit_vector)
        requires
            s1 <= 0x1FFFE,
    ;
    sum = sum + (sum >> 16);
    let r = !sum as u16;
    assert(r == !fold_carries(s0)) by (bit_vector)
        requires
            s1 == (s0 >> 16u32) + (s0 & 0xFFFFu32),
            sum == s1 + (s1 >> 16u32),
            r == !sum as u16,
    ;
    r
}

/// Zeroing a 16-bit checksum field, computing the checksum and writing it into
/// that field gives a buffer whose checksum is zero.
pub proof fn lemma_checksum_installed_verifies(s: Seq<u8>, p: int)
    requires
        s.len() <= MAX_DATAGRAM,
        0 <= p,
        p + 2 <= s.len(),
        p % 2 == 0,
    ensures
        ({
            let zeroed = put_u16(s, p, 0);
            internet_checksum(put_u16(zeroed, p, internet_checksum(zeroed))) == 0
        }),
{
    let z1 = s.update(p, 0u8);
    let zeroed = z1.update(p + 1, 0u8);
    assert(put_u16(s, p, 0) == zeroed) by {
        assert((0u16 >> 8u16) as u8 == 0u8 && (0u16 & 0xFFu16) as u8 == 0u8) by (bit_vector);
    }
    lemma_word_sum_bound(zeroed);
    let s0 = word_sum(zeroed);
    let f0 = fold_carries(s0 as u32);
    let c = internet_checksum(zeroed);
    assert(c == 0xFFFF - f0) by (bit_vector)
        requires
            c == !f0,
    ;
    let c_hi = (c >> 8u16) as u8;
    let c_lo = (c & 0xFFu16) as u8;
    assert(c == c_hi * 256 + c_lo) by (bit_vector)
        requires
            c_hi == (c >> 8u16) as u8,
            c_lo == (c & 0xFFu16) as u8,
    ;
    let t1 = zeroed.update(p, c_hi);
    let t2 = t1.update(p + 1, c_lo);
    lemma_word_sum_update(zeroed, p, c_hi);
    lemma_word_sum_update(t1, p + 1, c_lo);
    assert(zeroed[p] == 0 && zeroed[p + 1] == 0);
    assert(word_sum(t2) == s0 + c);
    let s1 = word_sum(t2);
    lemma_fold_carries(s0 as u32);
    lemma_fold_carries(s1 as u32);
    let f1 = fold_carries(s1 as u32);
    assert(s1 % 65535 == 0) by {
        assert(s1 == s0 + 65535 - f0);
        assert(f0 as int % 65535 == s0 % 65535);
    }
    assert(s1 > 0);
    assert(f1 == 0xFFFF) by {
        assert(f1 as int % 65535 == 0);
        assert(f1 != 0);
    }
    assert(!0xFFFFu16 == 0u16) by (bit_vector);
}

/// Flipping one bit of a buffer changes its Internet checksum.
pub proof fn lemma_checksum_detects_bit_flip(s: Seq<u8>, j: int, bit: u8)
    requires
        s.len() <= MAX_DATAGRAM,
        0 <= j < s.len(),
        bit < 8,
    ensures
        internet_checksum(s.update(j, s[j] ^ (1u8 << bit))) != internet_checksum(s),
{
    let v = s[j];
    let w = v ^ (1u8 << bit);
    assert(w == v + (1u8 << bit) || w == v - (1u8 << bit)) by (bit_vector)
        requires
            w == v ^ (1u8 << bit),
            bit < 8,
    ;
    assert(1 <= (1u8 << bit) <= 128) by (bit_vector)
        requires
            bit < 8,
    ;
    let t = s.update(j, w);
    lemma_word_sum_update(s, j, w);
    lemma_word_sum_bound(s);
    lemma_word_sum_bound(t);
    let d = w as int - v as int;
    let weight = byte_weight(s.len(), j);
    assert(0 < d * weight <= 32768 || -32768 <= d * weight < 0) by (nonlinear_arith)
        requires
            1 <= d <= 128 || -128 <= d <= -1,
            weight == 256 || weight == 1,
    ;
    let s0 = word_sum(s);
    let s1 = word_sum(t);
    assert(s1 % 65535 != s0 % 65535);
    lemma_fold_carries(s0 as u32);
    lemma_fold_carries(s1 as u32);
    let f0 = fold_carries(s0 as u32);
    let f1 = fold_carries(s1 as u32);
    assert(f0 != f1);
    assert(!f0 != !f1) by (bit_vector)
        requires
            f0 != f1,
    ;
}

} // verus!
