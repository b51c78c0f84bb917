//! The MT19937 Mersenne Twister, in the form that obfuscated MDF files use.

use vstd::prelude::*;
use vstd::wrapping::u32_specs::{wrapping_add, wrapping_mul, wrapping_sub};

verus! {

/// The abstract state of a generator: its 624 words and the read position.
pub struct MtState {
    pub mt: Seq<u32>,
    pub index: int,
}

/// Word `i` of the state that `init_genrand(seed)` produces.
pub open spec fn genrand_word(seed: u32, i: nat) -> u32
    decreases i,
{
    if i == 0 {
        seed
    } else {
        let p = genrand_word(seed, (i - 1) as nat);
        wrapping_add(wrapping_mul(1_812_433_253u32, p ^ (p >> 30u32)), i as u32)
    }
}

/// The 624 words that `init_genrand(seed)` produces.
pub open spec fn genrand_words(seed: u32) -> Seq<u32> {
    Seq::new(624, |i: int| genrand_word(seed, i as nat))
}

/// The generator seeded with a single word.
pub open spec fn seeded_state(seed: u32) -> MtState {
    MtState { mt: genrand_words(seed), index: 624 }
}

/// The words and the two cursors of `init_by_array` while it mixes in a key.
pub struct KeyMixState {
    pub mt: Seq<u32>,
    pub i: int,
    pub j: int,
}

/// One step of the first (key-mixing) loop of `init_by_array`.
pub open spec fn key_mix_step(s: KeyMixState, key: Seq<u32>) -> KeyMixState {
    let p = s.mt[s.i - 1];
    let v = wrapping_add(
        wrapping_add(s.mt[s.i] ^ wrapping_mul(p ^ (p >> 30u32), 1_664_525u32), key[s.j]),
        s.j as u32,
    );
    let mt1 = s.mt.update(s.i, v);
    let i1 = s.i + 1;
    let j1 = s.j + 1;
    KeyMixState {
        mt: if i1 >= 624 { mt1.update(0, mt1[623]) } else { mt1 },
        i: if i1 >= 624 { 1 } else { i1 },
        j: if j1 >= key.len() { 0 } else { j1 },
    }
}

/// The state after `n` steps of the first loop of `init_by_array`.
pub open spec fn key_mix(key: Seq<u32>, n: nat) -> KeyMixState
    decreases n,
{
    if n == 0 {
        KeyMixState { mt: genrand_words(19_650_218), i: 1, j: 0 }
    } else {
        key_mix_step(key_mix(key, (n - 1) as nat), key)
    }
}

/// One step of the second loop of `init_by_array`.
pub open spec fn key_final_step(s: KeyMixState) -> KeyMixState {
    let p = s.mt[s.i - 1];
    let v = wrapping_sub(s.mt[s.i] ^ wrapping_mul(p ^ (p >> 30u32), 1_566_083_941u32), s.i as u32);
    let mt1 = s.mt.update(s.i, v);
    let i1 = s.i + 1;
    KeyMixState {
        mt: if i1 >= 624 { mt1.update(0, mt1[623]) } else { mt1 },
        i: if i1 >= 624 { 1 } else { i1 },
        j: s.j,
    }
}

/// The state after `n` steps of the second loop, starting from `s`.
pub open spec fn key_final(s: KeyMixState, n: nat) -> KeyMixState
    decreases n,
{
    if n == 0 {
        s
    } else {
        key_final_step(key_final(s, (n - 1) as nat))
    }
}

/// The number of steps of the first loop of `init_by_array`.
pub open spec fn key_mix_rounds(key_len: nat) -> nat {
    if key_len > 624 { key_len } else { 624 }
}

/// The generator that `init_by_array(key)` produces.
pub open spec fn key_array_state(key: Seq<u32>) -> MtState {
    let s = key_final(key_mix(key, key_mix_rounds(key.len())), 623);
    MtState { mt: s.mt.update(0, 0x8000_0000u32), index: 624 }
}

/// The word that the twist writes at position `kk`, reading the words as they
/// stand when it gets there.
pub open spec fn twist_word(mt: Seq<u32>, kk: int) -> u32 {
    let y = (mt[kk] & 0x8000_0000u32) | (mt[(kk + 1) % 624] & 0x7fff_ffffu32);
    mt[(kk + 397) % 624] ^ (y >> 1u32) ^ (if y & 1u32 != 0 { 0x9908_b0dfu32 } else { 0u32 })
}

/// The words after the twist has rewritten positions `0..n` in order.
pub open spec fn twist_prefix(mt: Seq<u32>, n: nat) -> Seq<u32>
    decreases n,
{
    if n == 0 {
        mt
    } else {
        let m = twist_prefix(mt, (n - 1) as nat);
        m.update(n - 1, twist_word(m, n - 1))
    }
}

/// The words after a full twist.
pub open spec fn twist(mt: Seq<u32>) -> Seq<u32> {
    twist_prefix(mt, 624)
}

/// The tempering transform applied to each output word.
pub open spec fn temper(y: u32) -> u32 {
    let y1 = y ^ (y >> 11u32);
    let y2 = y1 ^ ((y1 << 7u32) & 0x9d2c_5680u32);
    let y3 = y2 ^ ((y2 << 15u32) & 0xefc6_0000u32);
    y3 ^ (y3 >> 18u32)
}

/// One draw: the state after it and the word it yields.
pub open spec fn mt_next(s: MtState) -> (MtState, u32) {
    let s1 = if s.index >= 624 { MtState { mt: twist(s.mt), index: 0 } } else { s };
    (MtState { mt: s1.mt, index: s1.index + 1 }, temper(s1.mt[s1.index]))
}

/// `n` draws: the state after them and the words they yield, in order.
pub open spec fn mt_outputs(s: MtState, n: nat) -> (MtState, Seq<u32>)
    decreases n,
{
    if n == 0 {
        (s, Seq::empty())
    } else {
        let (s1, ws) = mt_outputs(s, (n - 1) as nat);
        let (s2, w) = mt_next(s1);
        (s2, ws.push(w))
    }
}

/// A well-formed abstract state: 624 words, read position at most 624.
pub open spec fn mt_state_wf(s: MtState) -> bool {
    s.mt.len() == 624 && 0 <= s.index <= 624
}

proof fn lemma_twist_prefix_len(mt: Seq<u32>, n: nat)
    requires
        mt.len() == 624,
        n <= 624,
    ensures
        twist_prefix(mt, n).len() == 624,
    decreases n,
{
    if n > 0 {
        lemma_twist_prefix_len(mt, (n - 1) as nat);
    }
}

/// Every draw keeps the state well formed.
pub proof fn lemma_mt_outputs_wf(s: MtState, n: nat)
    requires
        mt_state_wf(s),
    ensures
        mt_state_wf(mt_outputs(s, n).0),
        mt_outputs(s, n).1.len() == n,
    decreases n,
{
    if n > 0 {
        lemma_mt_outputs_wf(s, (n - 1) as nat);
        lemma_twist_prefix_len(mt_outputs(s, (n - 1) as nat).0.mt, 624);
    }
}

/// `n` draws yield `n` words.
pub proof fn lemma_mt_outputs_len(s: MtState, n: nat)
    ensures
        mt_outputs(s, n).1.len() == n,
    decreases n,
{
    if n > 0 {
        lemma_mt_outputs_len(s, (n - 1) as nat);
    }
}

/// Drawing `n + m` words is drawing `n`, then `m` more.
pub proof fn lemma_mt_outputs_split(s: MtState, n: nat, m: nat)
    ensures
        mt_outputs(s, n + m).0 == mt_outputs(mt_outputs(s, n).0, m).0,
        mt_outputs(s, n + m).1 == mt_outputs(s, n).1 + mt_outputs(mt_outputs(s, n).0, m).1,
    decreases m,
{
    if m == 0 {
        assert(mt_outputs(s, n).1 + Seq::<u32>::empty() =~= mt_outputs(s, n).1);
    } else {
        lemma_mt_outputs_split(s, n, (m - 1) as nat);
        assert((n + m - 1) as nat == n + (m - 1) as nat);
        let t = mt_outputs(s, n).0;
        assert(mt_outputs(s, n).1 + mt_outputs(t, (m - 1) as nat).1.push(mt_next(mt_outputs(t, (m - 1) as nat).0).1)
            =~= (mt_outputs(s, n).1 + mt_outputs(t, (m - 1) as nat).1).push(mt_next(mt_outputs(t, (m - 1) as nat).0).1));
    }
}

/// An MT19937 generator.
pub struct Mt19937 {
    mt: Vec<u32>,
    index: usize,
}

impl View for Mt19937 {
    type V = MtState;

    closed spec fn view(&self) -> MtState {
        MtState { mt: self.mt@, index: self.index as int }
    }
}

impl Mt19937 {
    /// Creates a generator seeded with a single word (`init_genrand`).
    pub fn new(seed: u32) -> (r: Self)
        ensures
            mt_state_wf(r@),
            r@ == seeded_state(seed),
    {
        let mut mt: Vec<u32> = Vec::new();
        mt.push(seed);
        let mut i: usize = 1;
        while i < 624
            invariant
                1 <= i <= 624,
                mt@.len() == i,
                forall|k: int| 0 <= k < i ==> mt@[k] == genrand_word(seed, k as nat),
            decreases 624 - i,
        {
            let p = mt[i - 1];
            let v = 1_812_433_253u32.wrapping_mul(p ^ (p >> 30u32)).wrapping_add(i as u32);
            mt.push(v);
            i += 1;
        }
        let r = Mt19937 { mt, index: 624 };
        assert(r@.mt =~= genrand_words(seed));
        r
    }

    /// Creates a generator seeded with an array of words (`init_by_array`).
    pub fn from_key_array(key: &[u32]) -> (r: Self)
        requires
            key@.len() >= 1,
        ensures
            mt_state_wf(r@),
            r@ == key_array_state(key@),
    {
        let mut rng = Self::new(19_650_218);
        let mut i: usize = 1;
        let mut j: usize = 0;
        let kmax: usize = if key.len() > 624 { key.len() } else { 624 };
        let mut k: usize = kmax;
        proof {
            assert(rng.mt@ =~= key_mix(key@, 0).mt);
        }
        while k > 0
            invariant
                kmax == key_mix_rounds(key@.len() as nat),
                k <= kmax,
                key@.len() >= 1,
                1 <= i < 624,
                j < key@.len(),
                rng.mt@.len() == 624,
                rng.mt@ == key_mix(key@, (kmax - k) as nat).mt,
                i == key_mix(key@, (kmax - k) as nat).i,
                j == key_mix(key@, (kmax - k) as nat).j,
            decreases k,
        {
            let p = rng.mt[i - 1];
            let v = (rng.mt[i] ^ (p ^ (p >> 30u32)).wrapping_mul(1_664_525u32)).wrapping_add(
                key[j],
            ).wrapping_add(j as u32);
            rng.mt.set(i, v);
            i += 1;
            j += 1;
            if i >= 624 {
                let last = rng.mt[623];
                rng.mt.set(0, last);
                i = 1;
            }
            if j >= key.len() {
                j = 0;
            }
            k -= 1;
            proof {
                let n = (kmax - k) as nat;
                assert(key_mix(key@, n) == key_mix_step(key_mix(key@, (n - 1) as nat), key@));
                assert(rng.mt@ =~= key_mix(key@, n).mt);
            }
        }
        let ghost mixed = key_mix(key@, kmax as nat);
        k = 623;
        while k > 0
            invariant
                k <= 623,
                1 <= i < 624,
                rng.mt@.len() == 624,
                rng.mt@ == key_final(mixed, (623 - k) as nat).mt,
                i == key_final(mixed, (623 - k) as nat).i,
            decreases k,
        {
            let p = rng.mt[i - 1];
            let v = (rng.mt[i] ^ (p ^ (p >> 30u32)).wrapping_mul(1_566_083_941u32)).wrapping_sub(
                i as u32,
            );
            rng.mt.set(i, v);
            i += 1;
            if i >= 624 {
                let last = rng.mt[623];
                rng.mt.set(0, last);
                i = 1;
            }
            k -= 1;
            proof {
                let n = (623 - k) as nat;
                assert(key_final(mixed, n) == key_final_step(key_final(mixed, (n - 1) as nat)));
                assert(rng.mt@ =~= key_final(mixed, n).mt);
            }
        }
        rng.mt.set(0, 0x8000_0000u32);
        rng.index = 624;
        assert(rng@.mt =~= key_array_state(key@).mt);
        rng
    }

    /// Draws the next tempered word, twisting the state first when all 624
    /// words have been read.
    pub fn next_u32(&mut self) -> (r: u32)
        requires
            mt_state_wf(old(self)@),
        ensures
            mt_state_wf(final(self)@),
            1 <= final(self)@.index <= 624,
            (final(self)@, r) == mt_next(old(self)@),
    {
        if self.index >= 624 {
            proof {
                lemma_twist_prefix_len(self.mt@, 624);
            }
            twist_words(&mut self.mt);
            self.index = 0;
        }
        let mut y = self.mt[self.index];
        self.index += 1;
        y = y ^ (y >> 11u32);
        y = y ^ ((y << 7u32) & 0x9d2c_5680u32);
        y = y ^ ((y << 15u32) & 0xefc6_0000u32);
        y = y ^ (y >> 18u32);
        y
    }
}

fn twist_words(mt: &mut Vec<u32>)
    requires
        old(mt)@.len() == 624,
    ensures
        final(mt)@ == twist(old(mt)@),
{
    let ghost start = mt@;
    let mut kk: usize = 0;
    while kk < 227
        invariant
            kk <= 227,
            start.len() == 624,
            mt@ == twist_prefix(start, kk as nat),
        decreases 227 - kk,
    {
        proof {
            lemma_twist_prefix_len(start, kk as nat);
            assert((kk + 1) % 624 == kk + 1);
            assert((kk + 397) % 624 == kk + 397);
        }
        let y = (mt[kk] & 0x8000_0000u32) | (mt[kk + 1] & 0x7fff_ffffu32);
        let v = mt[kk + 397] ^ (y >> 1u32) ^ if y & 1u32 != 0 { 0x9908_b0dfu32 } else { 0u32 };
        mt.set(kk, v);
        kk += 1;
    }
    while kk < 623
        invariant
            227 <= kk <= 623,
            start.len() == 624,
            mt@ == twist_prefix(start, kk as nat),
        decreases 623 - kk,
    {
        proof {
            lemma_twist_prefix_len(start, kk as nat);
            assert((kk + 1) % 624 == kk + 1);
            assert((kk + 397) % 624 == kk - 227);
        }
        let y = (mt[kk] & 0x8000_0000u32) | (mt[kk + 1] & 0x7fff_ffffu32);
        let v = mt[kk - 227] ^ (y >> 1u32) ^ if y & 1u32 != 0 { 0x9908_b0dfu32 } else { 0u32 };
        mt.set(kk, v);
        kk += 1;
    }
    proof {
        lemma_twist_prefix_len(start, 623);
        assert((623int + 1) % 624 == 0);
        assert((623int + 397) % 624 == 396);
    }
    let y = (mt[623] & 0x8000_0000u32) | (mt[0] & 0x7fff_ffffu32);
    let v = mt[396] ^ (y >> 1u32) ^ if y & 1u32 != 0 { 0x9908_b0dfu32 } else { 0u32 };
    mt.set(623, v);
}

} // verus!
