//! MD5 (RFC 1321), used to derive the MT19937 seed of obfuscated MDF files.

use crate::mdf::codec::{le_u32, le_word, u32_le_bytes};
use vstd::prelude::*;
use vstd::wrapping::u32_specs::wrapping_add;

verus! {

/// The MD5 chaining state `(a, b, c, d)`.
pub type Md5State = (u32, u32, u32, u32);

/// The initial chaining state.
pub open spec fn md5_init() -> Md5State {
    (0x6745_2301u32, 0xefcd_ab89u32, 0x98ba_dcfeu32, 0x1032_5476u32)
}

/// Left-rotation amount of round `i`: four amounts per group of sixteen rounds.
pub open spec fn md5_shift(i: int) -> u32 {
    let r = i / 16;
    let c = i % 4;
    if r == 0 {
        if c == 0 { 7 } else if c == 1 { 12 } else if c == 2 { 17 } else { 22 }
    } else if r == 1 {
        if c == 0 { 5 } else if c == 1 { 9 } else if c == 2 { 14 } else { 20 }
    } else if r == 2 {
        if c == 0 { 4 } else if c == 1 { 11 } else if c == 2 { 16 } else { 23 }
    } else {
        if c == 0 { 6 } else if c == 1 { 10 } else if c == 2 { 15 } else { 21 }
    }
}

/// Per-round additive constants.
pub open spec fn md5_constant_table() -> Seq<u32> {
    seq![
        0xd76a_a478u32, 0xe8c7_b756, 0x2420_70db, 0xc1bd_ceee, 0xf57c_0faf, 0x4787_c62a,
        0xa830_4613, 0xfd46_9501, 0x6980_98d8, 0x8b44_f7af, 0xffff_5bb1, 0x895c_d7be,
        0x6b90_1122, 0xfd98_7193, 0xa679_438e, 0x49b4_0821, 0xf61e_2562, 0xc040_b340,
        0x265e_5a51, 0xe9b6_c7aa, 0xd62f_105d, 0x0244_1453, 0xd8a1_e681, 0xe7d3_fbc8,
        0x21e1_cde6, 0xc337_07d6, 0xf4d5_0d87, 0x455a_14ed, 0xa9e3_e905, 0xfcef_a3f8,
        0x676f_02d9, 0x8d2a_4c8a, 0xfffa_3942, 0x8771_f681, 0x6d9d_6122, 0xfde5_380c,
        0xa4be_ea44, 0x4bde_cfa9, 0xf6bb_4b60, 0xbebf_bc70, 0x289b_7ec6, 0xeaa1_27fa,
        0xd4ef_3085, 0x0488_1d05, 0xd9d4_d039, 0xe6db_99e5, 0x1fa2_7cf8, 0xc4ac_5665,
        0xf429_2244, 0x432a_ff97, 0xab94_23a7, 0xfc93_a039, 0x655b_59c3, 0x8f0c_cc92,
        0xffef_f47d, 0x8584_5dd1, 0x6fa8_7e4f, 0xfe2c_e6e0, 0xa301_4314, 0x4e08_11a1,
        0xf753_7e82, 0xbd3a_f235, 0x2ad7_d2bb, 0xeb86_d391,
    ]
}

/// The boolean function of round `i`.
pub open spec fn md5_f(i: int, b: u32, c: u32, d: u32) -> u32 {
    if i < 16 {
        (b & c) | (!b & d)
    } else if i < 32 {
        (d & b) | (!d & c)
    } else if i < 48 {
        b ^ c ^ d
    } else {
        c ^ (b | !d)
    }
}

/// The index of the message word that round `i` reads.
pub open spec fn md5_g(i: int) -> int {
    if i < 16 {
        i
    } else if i < 32 {
        (5 * i + 1) % 16
    } else if i < 48 {
        (3 * i + 5) % 16
    } else {
        (7 * i) % 16
    }
}

/// `x` rotated left by `s` bits, for `0 < s < 32`.
pub open spec fn rotl32(x: u32, s: u32) -> u32 {
    (x << s) | (x >> ((32 - s) as u32))
}

/// The sixteen little-endian words of a 64-byte block.
pub open spec fn md5_block_words(block: Seq<u8>) -> Seq<u32> {
    Seq::new(16, |j: int| le_u32(block.subrange(4 * j, 4 * j + 4)))
}

/// Round `i` of the compression function over the block words `m`.
pub open spec fn md5_round(st: Md5State, m: Seq<u32>, i: int) -> Md5State {
    let t = wrapping_add(
        wrapping_add(wrapping_add(st.0, md5_f(i, st.1, st.2, st.3)), md5_constant_table()[i]),
        m[md5_g(i)],
    );
    (st.3, wrapping_add(st.1, rotl32(t, md5_shift(i))), st.1, st.2)
}

/// The state after the first `n` rounds.
pub open spec fn md5_rounds(st: Md5State, m: Seq<u32>, n: nat) -> Md5State
    decreases n,
{
    if n == 0 {
        st
    } else {
        md5_round(md5_rounds(st, m, (n - 1) as nat), m, n - 1)
    }
}

/// The compression function: 64 rounds, added to the incoming state.
pub open spec fn md5_compress(st: Md5State, block: Seq<u8>) -> Md5State {
    let r = md5_rounds(st, md5_block_words(block), 64);
    (wrapping_add(st.0, r.0), wrapping_add(st.1, r.1), wrapping_add(st.2, r.2), wrapping_add(st.3, r.3))
}

/// The state after the first `n` 64-byte blocks of `padded`.
pub open spec fn md5_blocks(padded: Seq<u8>, n: nat) -> Md5State
    decreases n,
{
    if n == 0 {
        md5_init()
    } else {
        md5_compress(md5_blocks(padded, (n - 1) as nat), padded.subrange(64 * (n - 1), 64 * n as int))
    }
}

/// The number of zero bytes between the `0x80` marker and the length field.
pub open spec fn md5_zero_pad_len(len: nat) -> nat {
    let r = len % 64;
    if r <= 55 { (55 - r) as nat } else { (119 - r) as nat }
}

/// The little-endian encoding of a `u64`.
pub open spec fn u64_le_bytes(v: u64) -> Seq<u8> {
    Seq::new(8, |i: int| (v >> ((8 * i) as u64)) as u8)
}

/// The padded message: the message, `0x80`, zeros up to 56 mod 64, and the
/// message length in bits, modulo 2^64, as a little-endian `u64`.
pub open spec fn md5_padded(msg: Seq<u8>) -> Seq<u8> {
    msg + seq![0x80u8] + Seq::new(md5_zero_pad_len(msg.len()), |i: int| 0u8) + u64_le_bytes(
        ((msg.len() * 8) % 0x1_0000_0000_0000_0000) as u64,
    )
}

/// The MD5 digest of `msg`.
pub open spec fn md5_digest(msg: Seq<u8>) -> Seq<u8> {
    let p = md5_padded(msg);
    let s = md5_blocks(p, p.len() / 64);
    u32_le_bytes(s.0) + u32_le_bytes(s.1) + u32_le_bytes(s.2) + u32_le_bytes(s.3)
}

proof fn lemma_padded_len(len: nat)
    ensures
        (len + 1 + md5_zero_pad_len(len) + 8) % 64 == 0,
{
    let z = md5_zero_pad_len(len);
    assert((len + 1 + z + 8) % 64 == 0) by (nonlinear_arith)
        requires
            z == (if len % 64 <= 55 { 55 - len % 64 } else { 119 - len % 64 }),
    ;
}

proof fn lemma_block_in_range(blk: int, len: int)
    requires
        0 <= blk < len / 64,
        0 <= len,
    ensures
        64 * blk + 64 <= len,
{
    assert(64 * blk + 64 <= len) by (nonlinear_arith)
        requires
            0 <= blk < len / 64,
            0 <= len,
    ;
}

fn constant_table() -> (t: Vec<u32>)
    ensures
        t@ == md5_constant_table(),
{
    let t = vec![
        0xd76a_a478u32, 0xe8c7_b756, 0x2420_70db, 0xc1bd_ceee, 0xf57c_0faf, 0x4787_c62a,
        0xa830_4613, 0xfd46_9501, 0x6980_98d8, 0x8b44_f7af, 0xffff_5bb1, 0x895c_d7be,
        0x6b90_1122, 0xfd98_7193, 0xa679_438e, 0x49b4_0821, 0xf61e_2562, 0xc040_b340,
        0x265e_5a51, 0xe9b6_c7aa, 0xd62f_105d, 0x0244_1453, 0xd8a1_e681, 0xe7d3_fbc8,
        0x21e1_cde6, 0xc337_07d6, 0xf4d5_0d87, 0x455a_14ed, 0xa9e3_e905, 0xfcef_a3f8,
        0x676f_02d9, 0x8d2a_4c8a, 0xfffa_3942, 0x8771_f681, 0x6d9d_6122, 0xfde5_380c,
        0xa4be_ea44, 0x4bde_cfa9, 0xf6bb_4b60, 0xbebf_bc70, 0x289b_7ec6, 0xeaa1_27fa,
        0xd4ef_3085, 0x0488_1d05, 0xd9d4_d039, 0xe6db_99e5, 0x1fa2_7cf8, 0xc4ac_5665,
        0xf429_2244, 0x432a_ff97, 0xab94_23a7, 0xfc93_a039, 0x655b_59c3, 0x8f0c_cc92,
        0xffef_f47d, 0x8584_5dd1, 0x6fa8_7e4f, 0xfe2c_e6e0, 0xa301_4314, 0x4e08_11a1,
        0xf753_7e82, 0xbd3a_f235, 0x2ad7_d2bb, 0xeb86_d391,
    ];
    assert(t@ =~= md5_constant_table());
    t
}

fn shift_of_round(i: usize) -> (s: u32)
    requires
        i < 64,
    ensures
        s == md5_shift(i as int),
        0 < s < 32,
{
    let r = i / 16;
    let c = i % 4;
    if r == 0 {
        if c == 0 { 7 } else if c == 1 { 12 } else if c == 2 { 17 } else { 22 }
    } else if r == 1 {
        if c == 0 { 5 } else if c == 1 { 9 } else if c == 2 { 14 } else { 20 }
    } else if r == 2 {
        if c == 0 { 4 } else if c == 1 { 11 } else if c == 2 { 16 } else { 23 }
    } else {
        if c == 0 { 6 } else if c == 1 { 10 } else if c == 2 { 15 } else { 21 }
    }
}

fn rotl(x: u32, s: u32) -> (r: u32)
    requires
        0 < s < 32,
    ensures
        r == rotl32(x, s),
{
    (x << s) | (x >> (32 - s))
}

fn block_words(msg: &Vec<u8>, off: usize) -> (m: Vec<u32>)
    requires
        off + 64 <= msg.len(),
    ensures
        m@ == md5_block_words(msg@.subrange(off as int, off + 64)),
{
    let ghost block = msg@.subrange(off as int, off + 64);
    let mut m: Vec<u32> = Vec::new();
    let mut j: usize = 0;
    while j < 16
        invariant
            j <= 16,
            off + 64 <= msg.len(),
            block == msg@.subrange(off as int, off + 64),
            m@.len() == j,
            forall|k: int| 0 <= k < j ==> m@[k] == md5_block_words(block)[k],
        decreases 16 - j,
    {
        let p = off + 4 * j;
        let w = le_word(msg.as_slice(), p);
        proof {
            assert(block.subrange(4 * j as int, 4 * j + 4) =~= msg@.subrange(p as int, p + 4));
        }
        m.push(w);
        j += 1;
    }
    assert(m@ =~= md5_block_words(block));
    m
}

fn compress_block(st: (u32, u32, u32, u32), m: &Vec<u32>, kt: &Vec<u32>) -> (r: (
    u32,
    u32,
    u32,
    u32,
))
    requires
        m@.len() == 16,
        kt@ == md5_constant_table(),
    ensures
        r == md5_rounds(st, m@, 64),
{
    let (mut a, mut b, mut c, mut d) = st;
    let mut i: usize = 0;
    while i < 64
        invariant
            i <= 64,
            m@.len() == 16,
            kt@ == md5_constant_table(),
            (a, b, c, d) == md5_rounds(st, m@, i as nat),
        decreases 64 - i,
    {
        let (f, g) = if i < 16 {
            ((b & c) | ((!b) & d), i)
        } else if i < 32 {
            ((d & b) | ((!d) & c), (5 * i + 1) % 16)
        } else if i < 48 {
            (b ^ c ^ d, (3 * i + 5) % 16)
        } else {
            (c ^ (b | (!d)), (7 * i) % 16)
        };
        let temp = d;
        d = c;
        c = b;
        b = b.wrapping_add(rotl(a.wrapping_add(f).wrapping_add(kt[i]).wrapping_add(m[g]), shift_of_round(i)));
        a = temp;
        i += 1;
    }
    (a, b, c, d)
}

/// Computes the MD5 digest of `input`.
pub fn md5(input: &[u8]) -> (digest: [u8; 16])
    ensures
        digest@ == md5_digest(input@),
{
    let kt = constant_table();
    let mut msg: Vec<u8> = Vec::new();
    let mut i: usize = 0;
    while i < input.len()
        invariant
            i <= input@.len(),
            msg@ == input@.subrange(0, i as int),
        decreases input@.len() - i,
    {
        msg.push(input[i]);
        i += 1;
    }
    assert(msg@ =~= input@);
    let bit_len: u64 = (input.len() as u64).wrapping_mul(8);
    msg.push(0x80);
    let rem = input.len() % 64;
    let zeros = if rem <= 55 { 55 - rem } else { 119 - rem };
    let mut z: usize = 0;
    while z < zeros
        invariant
            z <= zeros,
            zeros == md5_zero_pad_len(input@.len()),
            msg@ == input@ + seq![0x80u8] + Seq::new(z as nat, |k: int| 0u8),
        decreases zeros - z,
    {
        msg.push(0);
        z += 1;
        assert(msg@ =~= input@ + seq![0x80u8] + Seq::new(z as nat, |k: int| 0u8));
    }
    let ghost prefix = msg@;
    let mut t: u64 = 0;
    while t < 8
        invariant
            t <= 8,
            prefix.len() == input@.len() + 1 + md5_zero_pad_len(input@.len()),
            msg@ == prefix + u64_le_bytes(bit_len).subrange(0, t as int),
        decreases 8 - t,
    {
        msg.push((bit_len >> (8 * t)) as u8);
        t += 1;
        assert(msg@ =~= prefix + u64_le_bytes(bit_len).subrange(0, t as int));
    }
    assert(u64_le_bytes(bit_len).subrange(0, 8) =~= u64_le_bytes(bit_len));
    assert(msg@ == md5_padded(input@));
    proof {
        lemma_padded_len(input@.len());
    }
    let nblocks = msg.len() / 64;
    let mut a0: u32 = 0x6745_2301;
    let mut b0: u32 = 0xefcd_ab89;
    let mut c0: u32 = 0x98ba_dcfe;
    let mut d0: u32 = 0x1032_5476;
    let mut blk: usize = 0;
    let mut off: usize = 0;
    while blk < nblocks
        invariant
            blk <= nblocks,
            nblocks == msg@.len() / 64,
            off == 64 * blk,
            kt@ == md5_constant_table(),
            (a0, b0, c0, d0) == md5_blocks(msg@, blk as nat),
        decreases nblocks - blk,
    {
        proof {
            lemma_block_in_range(blk as int, msg@.len() as int);
        }
        let m = block_words(&msg, off);
        let (a, b, c, d) = compress_block((a0, b0, c0, d0), &m, &kt);
        a0 = a0.wrapping_add(a);
        b0 = b0.wrapping_add(b);
        c0 = c0.wrapping_add(c);
        d0 = d0.wrapping_add(d);
        blk += 1;
        off += 64;
    }
    let digest = [
        a0 as u8, (a0 >> 8u32) as u8, (a0 >> 16u32) as u8, (a0 >> 24u32) as u8,
        b0 as u8, (b0 >> 8u32) as u8, (b0 >> 16u32) as u8, (b0 >> 24u32) as u8,
        c0 as u8, (c0 >> 8u32) as u8, (c0 >> 16u32) as u8, (c0 >> 24u32) as u8,
        d0 as u8, (d0 >> 8u32) as u8, (d0 >> 16u32) as u8, (d0 >> 24u32) as u8,
    ];
    assert(digest@ =~= md5_digest(input@));
    digest
}

} // verus!
