//! Properties of the MDF reader, writer and MT19937 shell as a whole.

use crate::mdf::codec::{le_u32, lemma_le_u32_of_le_bytes, u32_le_bytes, zlib_inflate};
use crate::mdf::keystream::{
    candidate, first_decryption, key_variant_at, mt19937_xor_spec, seed_variant_at,
    variant_keystream, variant_state, zlib_header_plausible, MtKeyVariant, MtSeedVariant,
};
use crate::mdf::keystream::{cyclic_key, repeat_key, stream_key, words_bytes, words_for, xor_bytes};
use crate::mdf::md5::md5_digest;
use crate::mdf::mt19937::{lemma_mt_outputs_len, lemma_mt_outputs_split, mt_outputs, MtState};
use vstd::arithmetic::div_mod::lemma_small_mod;
use crate::mdf::{
    header_size, key_options, mdf_file, open_outcome, read_step, seed_options, MdfReaderView,
    MdfShell, OpenOutcome, ReadOptionsView,
};
use crate::mdf::codec::be_u32;
use crate::mdf::md5::md5_padded;
use crate::mdf::mt19937::{key_array_state, seeded_state};
use vstd::utf8::encode_utf8;
use crate::PSB_MDF_SIGNATURE;
use vstd::prelude::*;

verus! {

proof fn lemma_mdf_file_layout(size: u32, payload: Seq<u8>)
    ensures
        mdf_file(size, payload).len() == payload.len() + 8,
        le_u32(mdf_file(size, payload)) == PSB_MDF_SIGNATURE,
        header_size(mdf_file(size, payload)) == size,
        mdf_file(size, payload).subrange(8, mdf_file(size, payload).len() as int) == payload,
{
    let f = mdf_file(size, payload);
    lemma_le_u32_of_le_bytes(PSB_MDF_SIGNATURE);
    lemma_le_u32_of_le_bytes(size);
    let sig = u32_le_bytes(PSB_MDF_SIGNATURE);
    assert(f[0] == sig[0] && f[1] == sig[1] && f[2] == sig[2] && f[3] == sig[3]);
    let h = f.subrange(4, 8);
    assert(h =~= u32_le_bytes(size));
    assert(f.subrange(8, f.len() as int) =~= payload);
}

/// A file laid out as the writer lays it out (signature, the data's length,
/// a zlib stream of the data) opens to that data in the plain shell, with the
/// length as its size field, under any options that try plain MDF first and
/// resolve without error.
pub proof fn lemma_written_file_opens(data: Seq<u8>, compressed: Seq<u8>, o: ReadOptionsView)
    requires
        zlib_inflate(compressed) == Some(data),
        o.try_plain_first,
        !o.key_without_file_name(),
        o.resolved_key_len() != 0,
    ensures
        open_outcome(mdf_file(data.len() as u32, compressed), o) == (OpenOutcome::Decoded {
            decoded: data,
            shell: MdfShell::Plain,
        }),
        header_size(mdf_file(data.len() as u32, compressed)) == data.len() as u32,
{
    lemma_mdf_file_layout(data.len() as u32, compressed);
}

proof fn lemma_xor_twice(a: u8, k: u8)
    ensures
        (a ^ k) ^ k == a,
{
    assert((a ^ k) ^ k == a) by (bit_vector);
}

/// XORing with the MT19937 key stream of a seed and variants twice gives the
/// payload back: the same function obfuscates and clears the payload.
pub proof fn lemma_mt19937_xor_involutive(
    payload: Seq<u8>,
    seed: Seq<u8>,
    key_len: nat,
    sv: MtSeedVariant,
    kv: MtKeyVariant,
)
    ensures
        mt19937_xor_spec(mt19937_xor_spec(payload, seed, key_len, sv, kv), seed, key_len, sv, kv)
            == payload,
{
    let once = mt19937_xor_spec(payload, seed, key_len, sv, kv);
    let twice = mt19937_xor_spec(once, seed, key_len, sv, kv);
    assert forall|i: int| 0 <= i < payload.len() implies twice[i] == payload[i] by {
        let ks = variant_keystream(variant_state(md5_digest(seed), sv), payload.len(), key_len, kv);
        lemma_xor_twice(payload[i], ks[i]);
    }
    assert(twice =~= payload);
}

/// A file whose payload is a zlib stream that looks like one, obfuscated
/// with the first variants tried (digest words little-endian as an
/// `init_by_array` key, a repeated little-endian key), opens with the same
/// seed and key length to the stream's contents in the MT19937 shell, when
/// the obfuscated payload does not itself inflate.
pub proof fn lemma_obfuscated_file_opens(
    stream: Seq<u8>,
    data: Seq<u8>,
    seed: Seq<u8>,
    key_len: usize,
    size: u32,
)
    requires
        zlib_header_plausible(stream),
        zlib_inflate(stream) == Some(data),
        key_len > 0,
        zlib_inflate(
            mt19937_xor_spec(
                stream,
                seed,
                key_len as nat,
                MtSeedVariant::Md5ArrayLe,
                MtKeyVariant::CyclicLeWords,
            ),
        ) is None,
    ensures
        open_outcome(
            mdf_file(
                size,
                mt19937_xor_spec(
                    stream,
                    seed,
                    key_len as nat,
                    MtSeedVariant::Md5ArrayLe,
                    MtKeyVariant::CyclicLeWords,
                ),
            ),
            seed_options(seed, key_len),
        ) == (OpenOutcome::Decoded { decoded: data, shell: MdfShell::Mt19937 }),
{
    let payload = mt19937_xor_spec(
        stream,
        seed,
        key_len as nat,
        MtSeedVariant::Md5ArrayLe,
        MtKeyVariant::CyclicLeWords,
    );
    lemma_mdf_file_layout(size, payload);
    lemma_mt19937_xor_involutive(
        stream,
        seed,
        key_len as nat,
        MtSeedVariant::Md5ArrayLe,
        MtKeyVariant::CyclicLeWords,
    );
    assert(seed_variant_at(0int / 4) == MtSeedVariant::Md5ArrayLe);
    assert(key_variant_at(0int % 4) == MtKeyVariant::CyclicLeWords);
    assert(candidate(payload, seed, key_len as nat, 0) == stream);
    assert(first_decryption(payload, seed, key_len as nat, 0) == Some(data));
}

/// Two reads in a row return consecutive decoded bytes: reading `a` and
/// then `b` bytes gives what one read of `a + b` bytes gives.
pub proof fn lemma_reads_concatenate(v: MdfReaderView, a: nat, b: nat)
    requires
        v.pos <= v.decoded.len(),
    ensures
        read_step(read_step(v, a).0, b).0 == read_step(v, a + b).0,
        read_step(v, a).1 + read_step(read_step(v, a).0, b).1 == read_step(v, a + b).1,
{
    let (v1, r1) = read_step(v, a);
    let (v2, r2) = read_step(v1, b);
    assert(r1 + r2 =~= read_step(v, a + b).1);
}

/// For a payload no longer than the key, the repeated-key layout and the
/// word-stream layout of the same generator and byte order XOR it alike: the
/// repeated key is the front of the key stream.
pub proof fn lemma_cyclic_key_prefix_of_stream(
    s: MtState,
    payload: Seq<u8>,
    key_len: nat,
    little_endian: bool,
)
    requires
        payload.len() <= key_len,
    ensures
        xor_bytes(payload, repeat_key(cyclic_key(s, key_len, little_endian), payload.len()))
            == xor_bytes(payload, stream_key(s, payload.len(), little_endian)),
{
    let n = payload.len();
    let a = words_for(n);
    let b = words_for(key_len);
    assert(a <= b) by (nonlinear_arith)
        requires
            a == (n + 3) / 4,
            b == (key_len + 3) / 4,
            n <= key_len,
    ;
    lemma_mt_outputs_split(s, a, (b - a) as nat);
    assert((a + (b - a)) as nat == b);
    lemma_mt_outputs_len(s, a);
    lemma_mt_outputs_len(s, b);
    assert(key_len <= 4 * b) by (nonlinear_arith)
        requires
            b == (key_len + 3) / 4,
    ;
    let short = mt_outputs(s, a).1;
    let long = mt_outputs(s, b).1;
    let ck = cyclic_key(s, key_len, little_endian);
    let sk = stream_key(s, n, little_endian);
    assert forall|i: int| 0 <= i < n implies repeat_key(ck, n)[i] == sk[i] by {
        lemma_small_mod(i as nat, key_len);
        assert(i / 4 < a && 4 * a <= 4 * b && i < 4 * a) by (nonlinear_arith)
            requires
                0 <= i < n,
                a == (n + 3) / 4,
                a <= b,
        ;
        assert(long[i / 4] == short[i / 4]);
        assert(ck[i] == words_bytes(long, little_endian)[i]);
    }
    assert(xor_bytes(payload, repeat_key(ck, n)) =~= xor_bytes(payload, sk));
}

/// The MD5 digest is sixteen bytes long.
pub proof fn lemma_md5_digest_len(seed: Seq<u8>)
    ensures
        md5_digest(seed).len() == 16,
{
}

/// Each seed layout builds its generator from the MD5 digest of the seed as
/// follows: the `Array` layouts run `init_by_array` on the four digest words
/// in digest order (bytes 0..4, 4..8, 8..12, 12..16), read little- or
/// big-endian; the `First` layouts run `init_genrand` on the first digest
/// word, read little- or big-endian.
pub proof fn lemma_seed_layouts(seed: Seq<u8>)
    ensures
        ({
            let d = md5_digest(seed);
            &&& variant_state(d, MtSeedVariant::Md5ArrayLe) == key_array_state(
                seq![
                    le_u32(d.subrange(0, 4)),
                    le_u32(d.subrange(4, 8)),
                    le_u32(d.subrange(8, 12)),
                    le_u32(d.subrange(12, 16)),
                ],
            )
            &&& variant_state(d, MtSeedVariant::Md5ArrayBe) == key_array_state(
                seq![
                    be_u32(d.subrange(0, 4)),
                    be_u32(d.subrange(4, 8)),
                    be_u32(d.subrange(8, 12)),
                    be_u32(d.subrange(12, 16)),
                ],
            )
            &&& variant_state(d, MtSeedVariant::Md5FirstLe) == seeded_state(le_u32(d.subrange(0, 4)))
            &&& variant_state(d, MtSeedVariant::Md5FirstBe) == seeded_state(be_u32(d.subrange(0, 4)))
        }),
{
    let d = md5_digest(seed);
    lemma_md5_digest_len(seed);
    let h = d.subrange(0, 4);
    assert(h[0] == d[0] && h[1] == d[1] && h[2] == d[2] && h[3] == d[3]);
    assert(le_u32(h) == le_u32(d));
    assert(be_u32(h) == be_u32(d));
}

/// Byte `i` of the key stream of each key layout, in terms of the words the
/// generator draws: the `Stream` layouts use byte `i % 4` of draw `i / 4`,
/// the `Cyclic` layouts byte `j % 4` of draw `j / 4` with `j = i % key_len`;
/// the `Le` layouts take a word's bytes from the least significant up, the
/// `Be` layouts from the most significant down.
pub proof fn lemma_key_layouts(s: MtState, n: nat, key_len: nat, i: int)
    requires
        0 <= i < n,
    ensures
        ({
            let ws = mt_outputs(s, words_for(n)).1;
            let w = ws[i / 4];
            let k = i % 4;
            &&& variant_keystream(s, n, key_len, MtKeyVariant::StreamLeWords)[i] == (w >> ((8
                * k) as u32)) as u8
            &&& variant_keystream(s, n, key_len, MtKeyVariant::StreamBeWords)[i] == (w >> ((8
                * (3 - k)) as u32)) as u8
        }),
        key_len > 0 ==> ({
            let cs = mt_outputs(s, words_for(key_len)).1;
            let j = i % (key_len as int);
            let w = cs[j / 4];
            let k = j % 4;
            &&& variant_keystream(s, n, key_len, MtKeyVariant::CyclicLeWords)[i] == (w >> ((8
                * k) as u32)) as u8
            &&& variant_keystream(s, n, key_len, MtKeyVariant::CyclicBeWords)[i] == (w >> ((8
                * (3 - k)) as u32)) as u8
        }),
{
    lemma_mt_outputs_len(s, words_for(n));
    lemma_mt_outputs_len(s, words_for(key_len));
    assert(i < 4 * words_for(n)) by (nonlinear_arith)
        requires
            0 <= i < n,
    ;
    if key_len > 0 {
        let j = i % (key_len as int);
        assert(0 <= j < key_len && key_len <= 4 * words_for(key_len)) by (nonlinear_arith)
            requires
                key_len > 0,
                j == i % (key_len as int),
        ;
    }
}

/// Opening with a key, a file name and key length `k` uses `k` as the
/// repeated-key length and the key's UTF-8 bytes followed by the file name's
/// as the seed; opening with a complete seed and `k` uses that seed and `k`.
pub proof fn lemma_open_options_resolve(key: Seq<char>, name: Seq<char>, seed: Seq<u8>, k: usize)
    ensures
        key_options(key, name, k).resolved_key_len() == k,
        key_options(key, name, k).seed_bytes() == Some(encode_utf8(key) + encode_utf8(name)),
        !key_options(key, name, k).key_without_file_name(),
        key_options(key, name, k).try_plain_first,
        seed_options(seed, k).resolved_key_len() == k,
        seed_options(seed, k).seed_bytes() == Some(seed),
        !seed_options(seed, k).key_without_file_name(),
        seed_options(seed, k).try_plain_first,
{
}

/// A file obfuscated in the FreeMote layout (digest words little-endian as
/// an `init_by_array` key, a repeated little-endian key of `key_len` bytes)
/// with the seed `key + file name` opens, with that key, file name and key
/// length, to the stream's contents in the MT19937 shell, when the obfuscated
/// payload does not itself inflate.
pub proof fn lemma_obfuscated_file_opens_with_key(
    stream: Seq<u8>,
    data: Seq<u8>,
    key: Seq<char>,
    name: Seq<char>,
    key_len: usize,
    size: u32,
)
    requires
        zlib_header_plausible(stream),
        zlib_inflate(stream) == Some(data),
        key_len > 0,
        zlib_inflate(
            mt19937_xor_spec(
                stream,
                encode_utf8(key) + encode_utf8(name),
                key_len as nat,
                MtSeedVariant::Md5ArrayLe,
                MtKeyVariant::CyclicLeWords,
            ),
        ) is None,
    ensures
        open_outcome(
            mdf_file(
                size,
                mt19937_xor_spec(
                    stream,
                    encode_utf8(key) + encode_utf8(name),
                    key_len as nat,
                    MtSeedVariant::Md5ArrayLe,
                    MtKeyVariant::CyclicLeWords,
                ),
            ),
            key_options(key, name, key_len),
        ) == (OpenOutcome::Decoded { decoded: data, shell: MdfShell::Mt19937 }),
{
    let seed = encode_utf8(key) + encode_utf8(name);
    lemma_obfuscated_file_opens(stream, data, seed, key_len, size);
    lemma_open_options_resolve(key, name, seed, key_len);
    let payload = mt19937_xor_spec(
        stream,
        seed,
        key_len as nat,
        MtSeedVariant::Md5ArrayLe,
        MtKeyVariant::CyclicLeWords,
    );
    lemma_mdf_file_layout(size, payload);
}

/// MD5 padding keeps the message, appends `0x80`, and pads with zeros to the
/// least multiple of 64 bytes that leaves room for the 8-byte length field,
/// which holds the message length in bits (modulo 2^64), least significant
/// byte first.
pub proof fn lemma_md5_padding(msg: Seq<u8>)
    ensures
        ({
            let p = md5_padded(msg);
            let len = msg.len();
            let bits = ((len * 8) % 0x1_0000_0000_0000_0000) as u64;
            &&& p.len() % 64 == 0
            &&& len + 9 <= p.len() < len + 73
            &&& p.subrange(0, len as int) == msg
            &&& p[len as int] == 0x80u8
            &&& forall|i: int| len < i < p.len() - 8 ==> p[i] == 0u8
            &&& forall|i: int|
                0 <= i < 8 ==> #[trigger] p.subrange(p.len() - 8, p.len() as int)[i] == (bits >> ((
                8 * i) as u64)) as u8
        }),
{
    let p = md5_padded(msg);
    let len = msg.len();
    let z = crate::mdf::md5::md5_zero_pad_len(len);
    assert(p.len() == len + 1 + z + 8);
    assert((len + 9 + z) % 64 == 0 && z < 64) by (nonlinear_arith)
        requires
            z == (if len % 64 <= 55 { 55 - len % 64 } else { 119 - len % 64 }),
    ;
    assert(p.subrange(0, len as int) =~= msg);
}

/// A read yields the next unread decoded bytes, unchanged and in order: its
/// `k`-th byte is the decoded byte at the read position plus `k`, and it is
/// as long as the request allows and the decoded bytes last.
pub proof fn lemma_read_yields_next_bytes(v: MdfReaderView, m: nat)
    requires
        v.pos <= v.decoded.len(),
    ensures
        read_step(v, m).1.len() == if m < v.decoded.len() - v.pos {
            m as int
        } else {
            v.decoded.len() - v.pos
        },
        read_step(v, m).0.pos == v.pos + read_step(v, m).1.len(),
        read_step(v, m).0.decoded == v.decoded,
        forall|k: int|
            0 <= k < read_step(v, m).1.len() ==> read_step(v, m).1[k] == v.decoded[v.pos + k],
{
}

/// Reading a fresh reader in one request of at least its length yields all
/// of the decoded bytes, and the reader is then at the end.
pub proof fn lemma_read_everything(decoded: Seq<u8>, size: u32, shell: MdfShell, m: nat)
    requires
        m >= decoded.len(),
    ensures
        read_step(MdfReaderView { decoded, pos: 0, size, shell }, m).1 == decoded,
        read_step(MdfReaderView { decoded, pos: 0, size, shell }, m).0.pos == decoded.len(),
{
    assert(read_step(MdfReaderView { decoded, pos: 0, size, shell }, m).1 =~= decoded);
}

} // verus!
