//! Pseudo-random number engines: PCG-64-DXSM and Philox 4×64.
//!
//! Each engine is a deterministic state machine: the state after seeding is a
//! function of the seed alone, and every draw is a function of the state, so
//! the same seed always gives the same stream.
use vstd::prelude::*;

verus! {

/// 2^64, the modulus of `u64` arithmetic.
pub open spec fn two64() -> nat {
    0x1_0000_0000_0000_0000
}

/// 2^128, the modulus of `u128` arithmetic.
pub open spec fn two128() -> nat {
    u128::MAX as nat + 1
}

/// Byte `j` (0 = least significant) of the little-endian encoding of `w`.
pub open spec fn le_byte(w: u64, j: int) -> u8 {
    ((w >> ((8 * j) as u64)) & 0xffu64) as u8
}

/// Byte `k` of the little-endian encodings of `words`, laid end to end.
pub open spec fn stream_byte(words: Seq<u64>, k: int) -> u8 {
    le_byte(words[k / 8], k % 8)
}

/// Number of 64-bit draws needed to fill `len` bytes.
pub open spec fn words_for(len: nat) -> nat {
    (len + 7) / 8
}

/// A pseudo-random engine: a state, a seeding rule and a draw rule.
pub trait Generator: Send + Sync + View {
    /// The value that `next_u64` returns in state `s`.
    spec fn draw_value(s: Self::V) -> u64;

    /// The state after one `next_u64` from state `s`.
    spec fn draw_state(s: Self::V) -> Self::V;

    /// The state that `seed(seed)` makes.
    spec fn seeded(seed: u64) -> Self::V;

    /// Seeds a generator from a `u64`.
    fn seed(seed: u64) -> (g: Self)
        where
            Self: Sized,
        ensures
            g@ == Self::seeded(seed),
    ;

    /// Fills `dest` with the little-endian bytes of successive draws; the
    /// last draw is cut short when `dest.len()` is not a multiple of 8.
    /// Each engine states this in terms of its own draws.
    fn fill_bytes(&mut self, dest: &mut [u8]);

    /// Returns the next draw and advances the state.
    fn next_u64(&mut self) -> (r: u64)
        where
            Self: Sized,
        ensures
            r == Self::draw_value(old(self)@),
            final(self)@ == Self::draw_state(old(self)@),
    ;
}

/// Writes the first `take` little-endian bytes of `v` into `dest` from `at` on.
fn write_le(dest: &mut [u8], at: usize, v: u64, take: usize)
    requires
        take <= 8,
        at + take <= old(dest)@.len(),
    ensures
        final(dest)@.len() == old(dest)@.len(),
        forall|k: int| 0 <= k < at ==> #[trigger] final(dest)@[k] == old(dest)@[k],
        forall|k: int| at <= k < at + take ==> #[trigger] final(dest)@[k] == le_byte(v, k - at),
{
    let len = dest.len();
    let mut j: usize = 0;
    while j < take
        invariant
            j <= take <= 8,
            at + take <= len,
            len == dest@.len(),
            dest@.len() == old(dest)@.len(),
            forall|k: int| 0 <= k < at ==> #[trigger] dest@[k] == old(dest)@[k],
            forall|k: int| at <= k < at + j ==> #[trigger] dest@[k] == le_byte(v, k - at),
        decreases take - j,
    {
        let shift: u64 = 8 * (j as u64);
        let b = ((v >> shift) & 0xff) as u8;
        dest[at + j] = b;
        j = j + 1;
    }
}

/// Byte `k` of the stream `ws.push(v)`, for a byte in the last word or before it.
proof fn lemma_stream_push(ws: Seq<u64>, v: u64, k: int)
    requires
        0 <= k < 8 * ws.len() + 8,
    ensures
        k < 8 * ws.len() ==> stream_byte(ws.push(v), k) == stream_byte(ws, k),
        k >= 8 * ws.len() ==> stream_byte(ws.push(v), k) == le_byte(v, k - 8 * ws.len()),
{
    if k < 8 * ws.len() {
        assert(k / 8 < ws.len());
    } else {
        assert(k / 8 == ws.len());
    }
}

// ─── PCG-64-DXSM ─────────────────────────────────────────────────────────────

/// The LCG multiplier of the 128-bit PCG state.
pub const PCG_MULTIPLIER: u128 = 0x2360_ED05_1FC6_5DA4_4385_DF64_9FCC_F645;

/// The multiplier of the DXSM output mix.
pub const DXSM_MULTIPLIER: u64 = 0xDA94_2042_E4DD_58B5;

/// The model of a PCG-64 engine: its LCG state and odd increment.
pub struct PcgState {
    pub state: u128,
    pub inc: u128,
}

/// One LCG step: `state * MULTIPLIER + inc`, modulo 2^128.
pub open spec fn pcg_step(state: u128, inc: u128) -> u128 {
    ((state as nat * PCG_MULTIPLIER as nat + inc as nat) % two128()) as u128
}

/// The DXSM output of a state: the high half, xor-shifted and multiplied,
/// times the low half with its low bit set, modulo 2^64.
pub open spec fn dxsm_output(state: u128) -> u64 {
    let h0 = (state >> 64u128) as u64;
    let lo = (state | 1u128) as u64;
    let h1 = h0 ^ (h0 >> 32u64);
    let h2 = ((h1 as nat * DXSM_MULTIPLIER as nat) % two64()) as u64;
    let h3 = h2 ^ (h2 >> 48u64);
    ((h3 as nat * lo as nat) % two64()) as u64
}

/// The increment a seed gives: `2 * seed + 1`.
pub open spec fn pcg_inc(seed: u64) -> u128 {
    (2 * seed + 1) as u128
}

/// The value that PCG state `s` draws.
pub open spec fn pcg_value(s: PcgState) -> u64 {
    dxsm_output(s.state)
}

/// The PCG state after one draw from `s`.
pub open spec fn pcg_next(s: PcgState) -> PcgState {
    PcgState { state: pcg_step(s.state, s.inc), inc: s.inc }
}

/// The PCG state after `n` draws from `s`.
pub open spec fn pcg_advanced(s: PcgState, n: nat) -> PcgState
    decreases n,
{
    if n == 0 {
        s
    } else {
        pcg_next(pcg_advanced(s, (n - 1) as nat))
    }
}

/// The first `n` draws from PCG state `s`.
pub open spec fn pcg_draws(s: PcgState, n: nat) -> Seq<u64>
    decreases n,
{
    if n == 0 {
        Seq::empty()
    } else {
        pcg_draws(s, (n - 1) as nat).push(pcg_value(pcg_advanced(s, (n - 1) as nat)))
    }
}

proof fn lemma_pcg_draws_len(s: PcgState, n: nat)
    ensures
        pcg_draws(s, n).len() == n,
    decreases n,
{
    if n > 0 {
        lemma_pcg_draws_len(s, (n - 1) as nat);
    }
}

/// PCG-64-DXSM generator: fast, statistically strong, the default engine.
pub struct Pcg64 {
    state: u128,
    inc: u128,
}

impl View for Pcg64 {
    type V = PcgState;

    closed spec fn view(&self) -> PcgState {
        PcgState { state: self.state, inc: self.inc }
    }
}

proof fn lemma_wrapping_add_u128(a: u128, b: u128)
    ensures
        vstd::wrapping::u128_specs::wrapping_add(a, b) == ((a as nat + b as nat) % two128()) as u128,
{
    if a as nat + b as nat >= two128() {
        vstd::arithmetic::div_mod::lemma_mod_sub_multiples_vanish(a + b, two128() as int);
        vstd::arithmetic::div_mod::lemma_small_mod((a + b - two128()) as nat, two128());
    } else {
        vstd::arithmetic::div_mod::lemma_small_mod((a + b) as nat, two128());
    }
}

impl Pcg64 {
    fn step(&mut self)
        ensures
            final(self)@ == (PcgState { state: pcg_step(old(self)@.state, old(self)@.inc), inc: old(self)@.inc }),
    {
        let ghost s = self.state;
        let p = self.state.wrapping_mul(PCG_MULTIPLIER);
        proof {
            lemma_wrapping_add_u128(p, self.inc);
            vstd::arithmetic::div_mod::lemma_add_mod_noop(
                (s as nat * PCG_MULTIPLIER as nat) as int,
                self.inc as int,
                two128() as int,
            );
            vstd::arithmetic::div_mod::lemma_small_mod(self.inc as nat, two128());
        }
        self.state = p.wrapping_add(self.inc);
    }

    fn draw(&mut self) -> (r: u64)
        ensures
            r == pcg_value(old(self)@),
            final(self)@ == pcg_next(old(self)@),
    {
        let state = self.state;
        self.step();
        Pcg64::output(state)
    }

    fn fill(&mut self, dest: &mut [u8])
        ensures
            final(dest)@.len() == old(dest)@.len(),
            forall|k: int|
                0 <= k < old(dest)@.len() ==> #[trigger] final(dest)@[k] == stream_byte(
                    pcg_draws(old(self)@, words_for(old(dest)@.len())),
                    k,
                ),
            final(self)@ == pcg_advanced(old(self)@, words_for(old(dest)@.len())),
    {
        let len = dest.len();
        let ghost s0 = self@;
        let mut i: usize = 0;
        let ghost mut m: nat = 0;
        while i < len
            invariant
                i <= len,
                dest@.len() == len,
                m == words_for(i as nat),
                i < len ==> i == 8 * m,
                self@ == pcg_advanced(s0, m),
                pcg_draws(s0, m).len() == m,
                forall|k: int| 0 <= k < i ==> #[trigger] dest@[k] == stream_byte(pcg_draws(s0, m), k),
            decreases len - i,
        {
            let v = self.draw();
            let rem = len - i;
            let take: usize = if rem < 8 {
                rem
            } else {
                8
            };
            write_le(dest, i, v, take);
            proof {
                let ws = pcg_draws(s0, m);
                assert(pcg_draws(s0, m + 1) == ws.push(v));
                assert forall|k: int| 0 <= k < i + take implies #[trigger] dest@[k] == stream_byte(
                    ws.push(v),
                    k,
                ) by {
                    lemma_stream_push(ws, v, k);
                }
                lemma_pcg_draws_len(s0, m + 1);
                m = m + 1;
            }
            i = i + take;
        }
    }

    fn output(state: u128) -> (r: u64)
        ensures
            r == dxsm_output(state),
    {
        let hi = (state >> 64) as u64;
        let lo = (state | 1) as u64;
        let hi = hi ^ (hi >> 32);
        let hi = hi.wrapping_mul(DXSM_MULTIPLIER);
        let hi = hi ^ (hi >> 48);
        hi.wrapping_mul(lo)
    }
}

impl Generator for Pcg64 {
    open spec fn draw_value(s: PcgState) -> u64 {
        pcg_value(s)
    }

    open spec fn draw_state(s: PcgState) -> PcgState {
        pcg_next(s)
    }

    open spec fn seeded(seed: u64) -> PcgState {
        let inc = pcg_inc(seed);
        PcgState { state: pcg_step(((pcg_step(0, inc) as nat + seed as nat) % two128()) as u128, inc), inc }
    }

    fn seed(seed: u64) -> (g: Pcg64) {
        let s = seed as u128;
        let inc = s.wrapping_shl(1) | 1;
        assert(inc == pcg_inc(seed)) by {
            assert((s << 1u32) | 1u128 == s * 2 + 1) by (bit_vector)
                requires
                    s < 0x1_0000_0000_0000_0000u128,
            ;
        }
        let mut g = Pcg64 { state: 0, inc };
        g.step();
        proof {
            lemma_wrapping_add_u128(g.state, s);
        }
        g.state = g.state.wrapping_add(s);
        g.step();
        g
    }

    fn fill_bytes(&mut self, dest: &mut [u8])
        ensures
            final(dest)@.len() == old(dest)@.len(),
            forall|k: int|
                0 <= k < old(dest)@.len() ==> #[trigger] final(dest)@[k] == stream_byte(
                    pcg_draws(old(self)@, words_for(old(dest)@.len())),
                    k,
                ),
            final(self)@ == pcg_advanced(old(self)@, words_for(old(dest)@.len())),
    {
        self.fill(dest);
    }

    fn next_u64(&mut self) -> (r: u64) {
        self.draw()
    }
}

// ─── Philox 4×64 ─────────────────────────────────────────────────────────────

/// Multiplier of counter word 0 in a Philox round.
pub const PHILOX_M0: u64 = 0xD2E7470EE14C6C93;

/// Multiplier of counter word 2 in a Philox round.
pub const PHILOX_M1: u64 = 0xCA5A826395121157;

/// Weyl increment of key word 0 between rounds.
pub const PHILOX_W0: u64 = 0x9E3779B97F4A7C15;

/// Weyl increment of key word 1 between rounds.
pub const PHILOX_W1: u64 = 0xBB67AE8584CCA73B;

/// Number of rounds in one Philox block.
pub const PHILOX_ROUNDS: u32 = 10;

/// High 64 bits of the 128-bit product `a * b`.
pub open spec fn mul_hi(a: u64, b: u64) -> u64 {
    ((a as nat * b as nat) / two64()) as u64
}

/// Low 64 bits of the 128-bit product `a * b`.
pub open spec fn mul_lo(a: u64, b: u64) -> u64 {
    ((a as nat * b as nat) % two64()) as u64
}

/// `a + b` modulo 2^64.
pub open spec fn add64(a: u64, b: u64) -> u64 {
    ((a as nat + b as nat) % two64()) as u64
}

/// One Philox round on a counter block under a key.
pub open spec fn philox_round(x: [u64; 4], k: [u64; 2]) -> [u64; 4] {
    [
        mul_hi(PHILOX_M1, x[2]) ^ x[1] ^ k[0],
        mul_lo(PHILOX_M1, x[2]),
        mul_hi(PHILOX_M0, x[0]) ^ x[3] ^ k[1],
        mul_lo(PHILOX_M0, x[0]),
    ]
}

/// The key of the next round.
pub open spec fn philox_bump(k: [u64; 2]) -> [u64; 2] {
    [add64(k[0], PHILOX_W0), add64(k[1], PHILOX_W1)]
}

/// `n` rounds on block `x`, starting with key `k`.
pub open spec fn philox_rounds(x: [u64; 4], k: [u64; 2], n: nat) -> [u64; 4]
    decreases n,
{
    if n == 0 {
        x
    } else {
        philox_rounds(philox_round(x, k), philox_bump(k), (n - 1) as nat)
    }
}

/// The counter after one block: word 0 plus one, carrying into word 1.
pub open spec fn counter_next(c: [u64; 4]) -> [u64; 4] {
    let c0 = add64(c[0], 1);
    [c0, if c0 == 0 { add64(c[1], 1) } else { c[1] }, c[2], c[3]]
}

/// The model of a Philox engine: counter, key, the current output block and
/// the position of the next unread word in it.
pub struct PhiloxState {
    pub counter: [u64; 4],
    pub key: [u64; 2],
    pub buffer: [u64; 4],
    pub buffer_pos: usize,
}

/// The state after generating a fresh block: the block of the current
/// counter, read from its start, with the counter advanced.
pub open spec fn philox_refilled(s: PhiloxState) -> PhiloxState {
    PhiloxState {
        counter: counter_next(s.counter),
        key: s.key,
        buffer: philox_rounds(s.counter, s.key, PHILOX_ROUNDS as nat),
        buffer_pos: 0,
    }
}

/// The state from which the next word is read: a fresh block once the
/// current one is used up.
pub open spec fn philox_ready(s: PhiloxState) -> PhiloxState {
    if s.buffer_pos >= 4 {
        philox_refilled(s)
    } else {
        s
    }
}

/// The value that Philox state `s` draws.
pub open spec fn philox_value(s: PhiloxState) -> u64 {
    let t = philox_ready(s);
    t.buffer[t.buffer_pos as int]
}

/// The Philox state after one draw from `s`.
pub open spec fn philox_next(s: PhiloxState) -> PhiloxState {
    let t = philox_ready(s);
    PhiloxState { counter: t.counter, key: t.key, buffer: t.buffer, buffer_pos: (t.buffer_pos + 1) as usize }
}

/// The Philox state after `n` draws from `s`.
pub open spec fn philox_advanced(s: PhiloxState, n: nat) -> PhiloxState
    decreases n,
{
    if n == 0 {
        s
    } else {
        philox_next(philox_advanced(s, (n - 1) as nat))
    }
}

/// The first `n` draws from Philox state `s`.
pub open spec fn philox_draws(s: PhiloxState, n: nat) -> Seq<u64>
    decreases n,
{
    if n == 0 {
        Seq::empty()
    } else {
        philox_draws(s, (n - 1) as nat).push(philox_value(philox_advanced(s, (n - 1) as nat)))
    }
}

proof fn lemma_philox_draws_len(s: PhiloxState, n: nat)
    ensures
        philox_draws(s, n).len() == n,
    decreases n,
{
    if n > 0 {
        lemma_philox_draws_len(s, (n - 1) as nat);
    }
}

/// Philox 4×64 counter-based generator.
pub struct Philox4x64 {
    counter: [u64; 4],
    key: [u64; 2],
    buffer: [u64; 4],
    buffer_pos: usize,
}

impl View for Philox4x64 {
    type V = PhiloxState;

    closed spec fn view(&self) -> PhiloxState {
        PhiloxState {
            counter: self.counter,
            key: self.key,
            buffer: self.buffer,
            buffer_pos: self.buffer_pos,
        }
    }
}

proof fn lemma_wrapping_add_u64(a: u64, b: u64)
    ensures
        vstd::wrapping::u64_specs::wrapping_add(a, b) == add64(a, b),
{
    if a as nat + b as nat >= two64() {
        vstd::arithmetic::div_mod::lemma_mod_sub_multiples_vanish(a + b, two64() as int);
        vstd::arithmetic::div_mod::lemma_small_mod((a + b - two64()) as nat, two64());
    } else {
        vstd::arithmetic::div_mod::lemma_small_mod((a + b) as nat, two64());
    }
}

/// The 128-bit product of two 64-bit words, as (high, low) halves.
fn mul128(a: u64, b: u64) -> (r: (u64, u64))
    ensures
        r == (mul_hi(a, b), mul_lo(a, b)),
{
    let wa = a as u128;
    let wb = b as u128;
    assert(wa * wb < two128()) by (nonlinear_arith)
        requires
            wa < 0x1_0000_0000_0000_0000,
            wb < 0x1_0000_0000_0000_0000,
    ;
    let product = wa.wrapping_mul(wb);
    proof {
        vstd::arithmetic::div_mod::lemma_small_mod((wa * wb) as nat, two128());
        assert(product >> 64u128 == product / 0x1_0000_0000_0000_0000u128) by (bit_vector);
        assert(product as u64 == product % 0x1_0000_0000_0000_0000u128) by (bit_vector);
    }
    ((product >> 64) as u64, product as u64)
}

impl Philox4x64 {
    fn round(ctr: [u64; 4], key: [u64; 2]) -> (r: [u64; 4])
        ensures
            r == philox_round(ctr, key),
    {
        let (hi0, lo0) = mul128(PHILOX_M0, ctr[0]);
        let (hi1, lo1) = mul128(PHILOX_M1, ctr[2]);
        [hi1 ^ ctr[1] ^ key[0], lo1, hi0 ^ ctr[3] ^ key[1], lo0]
    }

    fn draw(&mut self) -> (r: u64)
        ensures
            r == philox_value(old(self)@),
            final(self)@ == philox_next(old(self)@),
    {
        if self.buffer_pos >= 4 {
            self.generate();
        }
        let val = self.buffer[self.buffer_pos];
        self.buffer_pos = self.buffer_pos + 1;
        val
    }

    fn fill(&mut self, dest: &mut [u8])
        ensures
            final(dest)@.len() == old(dest)@.len(),
            forall|k: int|
                0 <= k < old(dest)@.len() ==> #[trigger] final(dest)@[k] == stream_byte(
                    philox_draws(old(self)@, words_for(old(dest)@.len())),
                    k,
                ),
            final(self)@ == philox_advanced(old(self)@, words_for(old(dest)@.len())),
    {
        let len = dest.len();
        let ghost s0 = self@;
        let mut i: usize = 0;
        let ghost mut m: nat = 0;
        while i < len
            invariant
                i <= len,
                dest@.len() == len,
                m == words_for(i as nat),
                i < len ==> i == 8 * m,
                self@ == philox_advanced(s0, m),
                philox_draws(s0, m).len() == m,
                forall|k: int| 0 <= k < i ==> #[trigger] dest@[k] == stream_byte(philox_draws(s0, m), k),
            decreases len - i,
        {
            let v = self.draw();
            let rem = len - i;
            let take: usize = if rem < 8 {
                rem
            } else {
                8
            };
            write_le(dest, i, v, take);
            proof {
                let ws = philox_draws(s0, m);
                assert(philox_draws(s0, m + 1) == ws.push(v));
                assert forall|k: int| 0 <= k < i + take implies #[trigger] dest@[k] == stream_byte(
                    ws.push(v),
                    k,
                ) by {
                    lemma_stream_push(ws, v, k);
                }
                lemma_philox_draws_len(s0, m + 1);
                m = m + 1;
            }
            i = i + take;
        }
    }

    fn generate(&mut self)
        ensures
            final(self)@ == philox_refilled(old(self)@),
    {
        let mut x = self.counter;
        let mut k = self.key;
        let mut r: u32 = 0;
        while r < PHILOX_ROUNDS
            invariant
                r <= PHILOX_ROUNDS,
                philox_rounds(x, k, (PHILOX_ROUNDS - r) as nat) == philox_rounds(
                    self.counter,
                    self.key,
                    PHILOX_ROUNDS as nat,
                ),
            decreases PHILOX_ROUNDS - r,
        {
            x = Philox4x64::round(x, k);
            proof {
                lemma_wrapping_add_u64(k[0], PHILOX_W0);
                lemma_wrapping_add_u64(k[1], PHILOX_W1);
            }
            k = [k[0].wrapping_add(PHILOX_W0), k[1].wrapping_add(PHILOX_W1)];
            r = r + 1;
        }
        self.buffer = x;
        self.buffer_pos = 0;
        proof {
            lemma_wrapping_add_u64(self.counter[0], 1);
            lemma_wrapping_add_u64(self.counter[1], 1);
        }
        let c0 = self.counter[0].wrapping_add(1);
        let c1 = if c0 == 0 {
            self.counter[1].wrapping_add(1)
        } else {
            self.counter[1]
        };
        self.counter = [c0, c1, self.counter[2], self.counter[3]];
    }
}

impl Generator for Philox4x64 {
    open spec fn draw_value(s: PhiloxState) -> u64 {
        philox_value(s)
    }

    open spec fn draw_state(s: PhiloxState) -> PhiloxState {
        philox_next(s)
    }

    open spec fn seeded(seed: u64) -> PhiloxState {
        philox_refilled(
            PhiloxState {
                counter: [0, 0, 0, 0],
                key: [seed, ((seed as nat * PHILOX_W0 as nat) % two64()) as u64],
                buffer: [0, 0, 0, 0],
                buffer_pos: 4,
            },
        )
    }

    fn seed(seed: u64) -> (g: Philox4x64) {
        let mut g = Philox4x64 {
            counter: [0, 0, 0, 0],
            key: [seed, seed.wrapping_mul(PHILOX_W0)],
            buffer: [0, 0, 0, 0],
            buffer_pos: 4,
        };
        g.generate();
        g
    }

    fn fill_bytes(&mut self, dest: &mut [u8])
        ensures
            final(dest)@.len() == old(dest)@.len(),
            forall|k: int|
                0 <= k < old(dest)@.len() ==> #[trigger] final(dest)@[k] == stream_byte(
                    philox_draws(old(self)@, words_for(old(dest)@.len())),
                    k,
                ),
            final(self)@ == philox_advanced(old(self)@, words_for(old(dest)@.len())),
    {
        self.fill(dest);
    }

    fn next_u64(&mut self) -> (r: u64) {
        self.draw()
    }
}

} // verus!
