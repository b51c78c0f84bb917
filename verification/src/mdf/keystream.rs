//! The MT19937/XOR shell: key streams drawn from an MT19937 generator seeded by
//! an MD5 digest, and the search over the layouts that games use.

use crate::mdf::codec::{be_u32, be_word, inflate_zlib_payload, le_u32, le_word, zlib_inflate};
use crate::mdf::error::MdfOpenError;
use crate::mdf::md5::{md5, md5_digest};
use crate::mdf::mt19937::{
    key_array_state, mt_outputs, mt_state_wf, seeded_state, MtState, Mt19937,
};
use vstd::prelude::*;

verus! {

/// How the MD5 digest of the seed becomes the generator's seed.
#[derive(Clone, Copy, Debug, PartialEq, Eq, Structural)]
pub enum MtSeedVariant {
    /// The four digest words, little-endian, as an `init_by_array` key.
    Md5ArrayLe,
    /// The four digest words, big-endian, as an `init_by_array` key.
    Md5ArrayBe,
    /// The first digest word, little-endian, as an `init_genrand` seed.
    Md5FirstLe,
    /// The first digest word, big-endian, as an `init_genrand` seed.
    Md5FirstBe,
}

/// How generator words become the XOR key stream.
#[derive(Clone, Copy, Debug, PartialEq, Eq, Structural)]
pub enum MtKeyVariant {
    /// A key of `key_len` bytes from little-endian words, repeated.
    CyclicLeWords,
    /// A key of `key_len` bytes from big-endian words, repeated.
    CyclicBeWords,
    /// Fresh little-endian words for every four payload bytes.
    StreamLeWords,
    /// Fresh big-endian words for every four payload bytes.
    StreamBeWords,
}

/// Byte `k` (`0 <= k < 4`) of the little- or big-endian encoding of `w`.
pub open spec fn word_byte(w: u32, k: int, little_endian: bool) -> u8 {
    if little_endian {
        (w >> ((8 * k) as u32)) as u8
    } else {
        (w >> ((8 * (3 - k)) as u32)) as u8
    }
}

/// The concatenated encodings of the words `ws`.
pub open spec fn words_bytes(ws: Seq<u32>, little_endian: bool) -> Seq<u8> {
    Seq::new(4 * ws.len(), |i: int| word_byte(ws[i / 4], i % 4, little_endian))
}

/// `data` XORed byte for byte with the front of `key`.
pub open spec fn xor_bytes(data: Seq<u8>, key: Seq<u8>) -> Seq<u8> {
    Seq::new(data.len(), |i: int| data[i] ^ key[i])
}

/// `key` repeated to length `n`.
pub open spec fn repeat_key(key: Seq<u8>, n: nat) -> Seq<u8> {
    Seq::new(n, |i: int| key[i % key.len() as int])
}

/// The number of generator words needed for `n` key bytes.
pub open spec fn words_for(n: nat) -> nat {
    (n + 3) / 4
}

/// The key stream for `n` payload bytes when each four bytes take a fresh word.
pub open spec fn stream_key(s: MtState, n: nat, little_endian: bool) -> Seq<u8> {
    words_bytes(mt_outputs(s, words_for(n)).1, little_endian)
}

/// The `key_len`-byte key built from the first generator words.
pub open spec fn cyclic_key(s: MtState, key_len: nat, little_endian: bool) -> Seq<u8> {
    words_bytes(mt_outputs(s, words_for(key_len)).1, little_endian).subrange(0, key_len as int)
}

/// The digest read as four words.
pub open spec fn digest_words(d: Seq<u8>, little_endian: bool) -> Seq<u32> {
    if little_endian {
        seq![le_u32(d.subrange(0, 4)), le_u32(d.subrange(4, 8)), le_u32(d.subrange(8, 12)), le_u32(d.subrange(12, 16))]
    } else {
        seq![be_u32(d.subrange(0, 4)), be_u32(d.subrange(4, 8)), be_u32(d.subrange(8, 12)), be_u32(d.subrange(12, 16))]
    }
}

/// The generator that a seed variant builds from a digest.
pub open spec fn variant_state(d: Seq<u8>, sv: MtSeedVariant) -> MtState {
    match sv {
        MtSeedVariant::Md5ArrayLe => key_array_state(digest_words(d, true)),
        MtSeedVariant::Md5ArrayBe => key_array_state(digest_words(d, false)),
        MtSeedVariant::Md5FirstLe => seeded_state(le_u32(d)),
        MtSeedVariant::Md5FirstBe => seeded_state(be_u32(d)),
    }
}

/// The key stream that a key variant draws from `s` for `n` payload bytes.
pub open spec fn variant_keystream(s: MtState, n: nat, key_len: nat, kv: MtKeyVariant) -> Seq<u8> {
    match kv {
        MtKeyVariant::CyclicLeWords => repeat_key(cyclic_key(s, key_len, true), n),
        MtKeyVariant::CyclicBeWords => repeat_key(cyclic_key(s, key_len, false), n),
        MtKeyVariant::StreamLeWords => stream_key(s, n, true),
        MtKeyVariant::StreamBeWords => stream_key(s, n, false),
    }
}

/// The payload XORed with the key stream of the given variants for `seed`.
pub open spec fn mt19937_xor_spec(
    payload: Seq<u8>,
    seed: Seq<u8>,
    key_len: nat,
    sv: MtSeedVariant,
    kv: MtKeyVariant,
) -> Seq<u8> {
    xor_bytes(payload, variant_keystream(variant_state(md5_digest(seed), sv), payload.len(), key_len, kv))
}

proof fn lemma_word_slot(p: int, c: int, key_idx: int)
    requires
        p + 4 == 4 * c + key_idx,
        0 <= key_idx < 4,
        0 <= p,
    ensures
        p / 4 == c - 1,
        p % 4 == key_idx,
{
    assert(p / 4 == c - 1 && p % 4 == key_idx) by (nonlinear_arith)
        requires
            p + 4 == 4 * c + key_idx,
            0 <= key_idx < 4,
            0 <= p,
    ;
}

fn word_bytes(n: u32, little_endian: bool) -> (b: Vec<u8>)
    ensures
        b@.len() == 4,
        forall|k: int| 0 <= k < 4 ==> b@[k] == word_byte(n, k, little_endian),
{
    let b0 = n as u8;
    let b1 = (n >> 8u32) as u8;
    let b2 = (n >> 16u32) as u8;
    let b3 = (n >> 24u32) as u8;
    assert(n as u8 == (n >> 0u32) as u8) by (bit_vector);
    assert(b0 == word_byte(n, 0, true) && b1 == word_byte(n, 1, true) && b2 == word_byte(n, 2, true)
        && b3 == word_byte(n, 3, true));
    assert(b3 == word_byte(n, 0, false) && b2 == word_byte(n, 1, false) && b1 == word_byte(n, 2, false)
        && b0 == word_byte(n, 3, false));
    let b = if little_endian {
        vec![b0, b1, b2, b3]
    } else {
        vec![b3, b2, b1, b0]
    };
    b
}

/// XORs `payload` with fresh generator words, four bytes per word.
pub fn xor_with_stream(payload: &[u8], mt: &mut Mt19937, little_endian: bool) -> (out: Vec<u8>)
    requires
        mt_state_wf(old(mt)@),
    ensures
        mt_state_wf(final(mt)@),
        final(mt)@ == mt_outputs(old(mt)@, words_for(payload@.len() as nat)).0,
        out@ == xor_bytes(payload@, stream_key(old(mt)@, payload@.len() as nat, little_endian)),
{
    let ghost start = mt@;
    let ghost mut words: Seq<u32> = Seq::empty();
    let mut out: Vec<u8> = Vec::new();
    let mut key: Vec<u8> = vec![0u8, 0u8, 0u8, 0u8];
    let mut key_idx: usize = 4;
    let mut p: usize = 0;
    while p < payload.len()
        invariant
            p <= payload@.len(),
            mt_state_wf(mt@),
            mt@ == mt_outputs(start, words.len()).0,
            words == mt_outputs(start, words.len()).1,
            p + 4 == 4 * words.len() + key_idx,
            1 <= key_idx <= 4,
            key@.len() == 4,
            words.len() > 0 ==> forall|k: int|
                0 <= k < 4 ==> key@[k] == word_byte(words[words.len() - 1], k, little_endian),
            out@.len() == p,
            forall|q: int|
                0 <= q < p ==> out@[q] == payload@[q] ^ word_byte(words[q / 4], q % 4, little_endian),
        decreases payload@.len() - p,
    {
        if key_idx >= 4 {
            let n = mt.next_u32();
            key = word_bytes(n, little_endian);
            key_idx = 0;
            proof {
                words = words.push(n);
            }
        }
        proof {
            lemma_word_slot(p as int, words.len() as int, key_idx as int);
        }
        out.push(payload[p] ^ key[key_idx]);
        key_idx += 1;
        p += 1;
    }
    proof {
        let n = payload@.len() as nat;
        assert(words.len() == words_for(n));
        let ks = stream_key(start, n, little_endian);
        assert(ks == words_bytes(words, little_endian));
        assert forall|q: int| 0 <= q < n implies out@[q] == (xor_bytes(payload@, ks))[q] by {
            assert(q / 4 < words.len()) by (nonlinear_arith)
                requires
                    0 <= q < n,
                    n + 4 <= 4 * words.len() + 4,
            ;
        }
        assert(out@ =~= xor_bytes(payload@, ks));
    }
    out
}

/// XORs `payload` with a `key_len`-byte key built from generator words and
/// repeated over the payload.
pub fn xor_with_cyclic_key(payload: &[u8], key_len: usize, mt: &mut Mt19937, little_endian: bool) -> (out:
    Vec<u8>)
    requires
        mt_state_wf(old(mt)@),
        key_len > 0 || payload@.len() == 0,
    ensures
        mt_state_wf(final(mt)@),
        final(mt)@ == mt_outputs(old(mt)@, words_for(key_len as nat)).0,
        out@ == xor_bytes(
            payload@,
            repeat_key(cyclic_key(old(mt)@, key_len as nat, little_endian), payload@.len() as nat),
        ),
{
    let ghost start = mt@;
    let ghost mut words: Seq<u32> = Seq::empty();
    let mut key: Vec<u8> = Vec::new();
    while key.len() < key_len
        invariant
            mt_state_wf(mt@),
            mt@ == mt_outputs(start, words.len()).0,
            words == mt_outputs(start, words.len()).1,
            key@ == words_bytes(words, little_endian),
            words.len() > 0 ==> key@.len() < key_len + 4,
        decreases key_len + 4 - key@.len(),
    {
        let n = mt.next_u32();
        let b = word_bytes(n, little_endian);
        let ghost before = key@;
        key.push(b[0]);
        key.push(b[1]);
        key.push(b[2]);
        key.push(b[3]);
        proof {
            let nw = words.push(n);
            assert forall|i: int| 0 <= i < key@.len() implies key@[i] == words_bytes(nw, little_endian)[i] by {
                if i < before.len() {
                    assert(nw[i / 4] == words[i / 4]) by (nonlinear_arith)
                        requires
                            0 <= i < 4 * words.len(),
                            nw.len() == words.len() + 1,
                            forall|t: int| 0 <= t < words.len() ==> nw[t] == words[t],
                    ;
                } else {
                    assert(i / 4 == words.len() && i % 4 == i - before.len()) by (nonlinear_arith)
                        requires
                            before.len() == 4 * words.len(),
                            before.len() <= i < before.len() + 4,
                    ;
                }
            }
            words = nw;
            assert(key@ =~= words_bytes(words, little_endian));
        }
    }
    proof {
        assert(words.len() == words_for(key_len as nat)) by (nonlinear_arith)
            requires
                key@.len() == 4 * words.len(),
                key@.len() >= key_len,
                words.len() > 0 ==> key@.len() < key_len + 4,
        ;
    }
    key.truncate(key_len);
    let ghost k = cyclic_key(start, key_len as nat, little_endian);
    assert(key@ =~= k);
    let mut out: Vec<u8> = Vec::new();
    let mut i: usize = 0;
    while i < payload.len()
        invariant
            i <= payload@.len(),
            key@ == k,
            key@.len() == key_len,
            key_len > 0 || payload@.len() == 0,
            out@ == xor_bytes(payload@.subrange(0, i as int), repeat_key(k, i as nat)),
        decreases payload@.len() - i,
    {
        out.push(payload[i] ^ key[i % key.len()]);
        i += 1;
        assert(out@ =~= xor_bytes(payload@.subrange(0, i as int), repeat_key(k, i as nat)));
    }
    assert(payload@.subrange(0, payload@.len() as int) =~= payload@);
    assert(out@ =~= xor_bytes(payload@, repeat_key(k, payload@.len() as nat)));
    out
}

/// XORs `payload` with the key stream of one seed variant and one key variant.
pub fn mt19937_xor(
    payload: &[u8],
    seed: &[u8],
    key_len: usize,
    seed_variant: MtSeedVariant,
    key_variant: MtKeyVariant,
) -> (out: Vec<u8>)
    requires
        key_variant is CyclicLeWords || key_variant is CyclicBeWords ==> key_len > 0
            || payload@.len() == 0,
    ensures
        out@ == mt19937_xor_spec(payload@, seed@, key_len as nat, seed_variant, key_variant),
{
    let digest = md5(seed);
    let d: &[u8] = &digest;
    let mut mt = match seed_variant {
        MtSeedVariant::Md5ArrayLe => {
            let keys = [le_word(d, 0), le_word(d, 4), le_word(d, 8), le_word(d, 12)];
            assert(keys@ =~= digest_words(digest@, true));
            Mt19937::from_key_array(&keys)
        },
        MtSeedVariant::Md5ArrayBe => {
            let keys = [be_word(d, 0), be_word(d, 4), be_word(d, 8), be_word(d, 12)];
            assert(keys@ =~= digest_words(digest@, false));
            Mt19937::from_key_array(&keys)
        },
        MtSeedVariant::Md5FirstLe => {
            assert(d@.subrange(0, 4) =~= d@.subrange(0, 4));
            let w = le_word(d, 0);
            assert(le_u32(d@.subrange(0, 4)) == le_u32(d@)) by {
                assert(d@.subrange(0, 4)[0] == d@[0] && d@.subrange(0, 4)[1] == d@[1]
                    && d@.subrange(0, 4)[2] == d@[2] && d@.subrange(0, 4)[3] == d@[3]);
            }
            Mt19937::new(w)
        },
        MtSeedVariant::Md5FirstBe => {
            let w = be_word(d, 0);
            assert(be_u32(d@.subrange(0, 4)) == be_u32(d@)) by {
                assert(d@.subrange(0, 4)[0] == d@[0] && d@.subrange(0, 4)[1] == d@[1]
                    && d@.subrange(0, 4)[2] == d@[2] && d@.subrange(0, 4)[3] == d@[3]);
            }
            Mt19937::new(w)
        },
    };
    match key_variant {
        MtKeyVariant::CyclicLeWords => xor_with_cyclic_key(payload, key_len, &mut mt, true),
        MtKeyVariant::CyclicBeWords => xor_with_cyclic_key(payload, key_len, &mut mt, false),
        MtKeyVariant::StreamLeWords => xor_with_stream(payload, &mut mt, true),
        MtKeyVariant::StreamBeWords => xor_with_stream(payload, &mut mt, false),
    }
}

/// zlib flag byte written for the fast compression levels.
pub const ZLIB_LEVEL_FAST: u8 = 0x9c;

/// zlib flag byte written for the best compression levels.
pub const ZLIB_LEVEL_BEST: u8 = 0xda;

/// zlib flag byte written for no compression.
pub const ZLIB_LEVEL_NONE: u8 = 0x01;

/// zlib flag byte written for the default compression level.
pub const ZLIB_LEVEL_DEFAULT: u8 = 0x5e;

/// Whether `b` starts with a zlib header of the kind MDF payloads carry:
/// deflate with a window of at most 32 KiB, a valid header check, and one of
/// the four standard compression-level flag bytes.
pub open spec fn zlib_header_plausible(b: Seq<u8>) -> bool {
    &&& b.len() >= 2
    &&& b[0] & 0x0fu8 == 8
    &&& b[0] >> 4u8 <= 7
    &&& (b[0] as int * 256 + b[1] as int) % 31 == 0
    &&& (b[1] == ZLIB_LEVEL_NONE || b[1] == ZLIB_LEVEL_DEFAULT || b[1] == ZLIB_LEVEL_FAST || b[1]
        == ZLIB_LEVEL_BEST)
}

/// Checks whether `bytes` starts with a plausible zlib header.
pub fn looks_like_zlib(bytes: &[u8]) -> (r: bool)
    ensures
        r == zlib_header_plausible(bytes@),
{
    if bytes.len() < 2 {
        return false;
    }
    let cmf = bytes[0];
    let flg = bytes[1];
    let method = cmf & 0x0f;
    let window = cmf >> 4;
    method == 8 && window <= 7 && ((cmf as u16) * 256 + (flg as u16)) % 31 == 0 && (flg == ZLIB_LEVEL_NONE
        || flg == ZLIB_LEVEL_DEFAULT || flg == ZLIB_LEVEL_FAST || flg == ZLIB_LEVEL_BEST)
}

/// The seed variant tried in position `i` (`0..4`).
pub open spec fn seed_variant_at(i: int) -> MtSeedVariant {
    if i == 0 {
        MtSeedVariant::Md5ArrayLe
    } else if i == 1 {
        MtSeedVariant::Md5ArrayBe
    } else if i == 2 {
        MtSeedVariant::Md5FirstLe
    } else {
        MtSeedVariant::Md5FirstBe
    }
}

/// The key variant tried in position `i` (`0..4`).
pub open spec fn key_variant_at(i: int) -> MtKeyVariant {
    if i == 0 {
        MtKeyVariant::CyclicLeWords
    } else if i == 1 {
        MtKeyVariant::CyclicBeWords
    } else if i == 2 {
        MtKeyVariant::StreamLeWords
    } else {
        MtKeyVariant::StreamBeWords
    }
}

/// The decryption that the `n`-th pair of variants (`n / 4` seed, `n % 4` key) gives.
pub open spec fn candidate(payload: Seq<u8>, seed: Seq<u8>, key_len: nat, n: int) -> Seq<u8> {
    mt19937_xor_spec(payload, seed, key_len, seed_variant_at(n / 4), key_variant_at(n % 4))
}

/// What the first of the pairs `n..16` whose decryption looks like zlib and
/// inflates yields, or `None` if none does.
pub open spec fn first_decryption(payload: Seq<u8>, seed: Seq<u8>, key_len: nat, n: int) -> Option<
    Seq<u8>,
>
    decreases 16 - n,
{
    if n < 0 || n >= 16 {
        None
    } else {
        let c = candidate(payload, seed, key_len, n);
        if zlib_header_plausible(c) && zlib_inflate(c) is Some {
            zlib_inflate(c)
        } else {
            first_decryption(payload, seed, key_len, n + 1)
        }
    }
}

fn seed_variant_of(i: usize) -> (v: MtSeedVariant)
    requires
        i < 4,
    ensures
        v == seed_variant_at(i as int),
{
    if i == 0 {
        MtSeedVariant::Md5ArrayLe
    } else if i == 1 {
        MtSeedVariant::Md5ArrayBe
    } else if i == 2 {
        MtSeedVariant::Md5FirstLe
    } else {
        MtSeedVariant::Md5FirstBe
    }
}

fn key_variant_of(i: usize) -> (v: MtKeyVariant)
    requires
        i < 4,
    ensures
        v == key_variant_at(i as int),
{
    if i == 0 {
        MtKeyVariant::CyclicLeWords
    } else if i == 1 {
        MtKeyVariant::CyclicBeWords
    } else if i == 2 {
        MtKeyVariant::StreamLeWords
    } else {
        MtKeyVariant::StreamBeWords
    }
}

/// Tries every seed variant with every key variant, in order, and inflates the
/// first decryption that looks like zlib and inflates.
pub fn decrypt_and_inflate_mt19937_payload(payload: &[u8], seed: &[u8], key_len: usize) -> (r: Result<
    Vec<u8>,
    MdfOpenError,
>)
    requires
        key_len > 0 || payload@.len() == 0,
    ensures
        match first_decryption(payload@, seed@, key_len as nat, 0) {
            Some(d) => r matches Ok(v) && v@ == d,
            None => r matches Err(MdfOpenError::Decrypt),
        },
{
    let mut si: usize = 0;
    while si < 4
        invariant
            si <= 4,
                key_len > 0 || payload@.len() == 0,
            first_decryption(payload@, seed@, key_len as nat, 0) == first_decryption(
                payload@,
                seed@,
                key_len as nat,
                4 * si,
            ),
        decreases 4 - si,
    {
        let seed_variant = seed_variant_of(si);
        let mut ki: usize = 0;
        while ki < 4
            invariant
                si < 4,
                ki <= 4,
                        key_len > 0 || payload@.len() == 0,
                seed_variant == seed_variant_at(si as int),
                first_decryption(payload@, seed@, key_len as nat, 0) == first_decryption(
                    payload@,
                    seed@,
                    key_len as nat,
                    4 * si + ki,
                ),
            decreases 4 - ki,
        {
            let key_variant = key_variant_of(ki);
            let decrypted = mt19937_xor(payload, seed, key_len, seed_variant, key_variant);
            proof {
                let n = 4 * si + ki;
                assert(n / 4 == si && n % 4 == ki);
                assert(decrypted@ == candidate(payload@, seed@, key_len as nat, n));
            }
            if !looks_like_zlib(&decrypted) {
                ki += 1;
                continue;
            }
            if let Ok(decoded) = inflate_zlib_payload(&decrypted) {
                return Ok(decoded);
            }
            ki += 1;
        }
        si += 1;
    }
    Err(MdfOpenError::Decrypt)
}

} // verus!
