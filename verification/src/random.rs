//! Seeded pseudo-random numbers: an FNV-1a hash of the seed's UTF-16 code
//! units starts a mulberry32 generator.

use vstd::prelude::*;

verus! {

broadcast use vstd::string::group_string_axioms;

/// The UTF-16 code units of one character.
pub open spec fn char_utf16(c: char) -> Seq<u16> {
    let cp = c as u32;
    if cp < 0x10000 {
        seq![cp as u16]
    } else {
        let v = (cp - 0x10000) as u32;
        seq![(0xD800 + v / 0x400) as u16, (0xDC00 + v % 0x400) as u16]
    }
}

/// The UTF-16 encoding of a character sequence.
pub open spec fn utf16_units(s: Seq<char>) -> Seq<u16>
    decreases s.len(),
{
    if s.len() == 0 {
        Seq::empty()
    } else {
        utf16_units(s.drop_last()) + char_utf16(s.last())
    }
}

pub open spec fn fnv_step(hash: u32, unit: u16) -> u32 {
    (hash ^ (unit as u32)).wrapping_mul(16_777_619)
}

/// FNV-1a continued from `hash` over `units`.
pub open spec fn fnv_continue(hash: u32, units: Seq<u16>) -> u32
    decreases units.len(),
{
    if units.len() == 0 {
        hash
    } else {
        fnv_step(fnv_continue(hash, units.drop_last()), units.last())
    }
}

/// The 32-bit FNV-1a hash of a string's UTF-16 code units.
pub open spec fn spec_hash_string(s: Seq<char>) -> u32 {
    fnv_continue(2_166_136_261, utf16_units(s))
}

proof fn lemma_fnv_continue_append(hash: u32, a: Seq<u16>, b: Seq<u16>)
    ensures
        fnv_continue(hash, a + b) == fnv_continue(fnv_continue(hash, a), b),
    decreases b.len(),
{
    if b.len() == 0 {
        assert(a + b =~= a);
    } else {
        assert((a + b).drop_last() =~= a + b.drop_last());
        lemma_fnv_continue_append(hash, a, b.drop_last());
    }
}

/// Hashes a string with 32-bit FNV-1a over its UTF-16 code units.
pub fn hash_string(value: &str) -> (hash: u32)
    ensures
        hash == spec_hash_string(value@),
{
    let mut hash: u32 = 2_166_136_261;
    for c in it: value.chars()
        invariant
            it.seq() == value@,
            hash == fnv_continue(2_166_136_261, utf16_units(value@.take(it.index()))),
    {
        let ghost before = value@.take(it.index());
        proof {
            assert(c == value@[it.index()]);
            assert(value@.take(it.index() + 1).drop_last() =~= before);
            lemma_fnv_continue_append(2_166_136_261, utf16_units(before), char_utf16(c));
            reveal_with_fuel(fnv_continue, 3);
        }
        let cp: u32 = c as u32;
        if cp < 0x10000 {
            hash = (hash ^ cp).wrapping_mul(16_777_619);
        } else {
            let v: u32 = cp - 0x10000;
            let high: u16 = (0xD800 + v / 0x400) as u16;
            let low: u16 = (0xDC00 + v % 0x400) as u16;
            hash = (hash ^ (high as u32)).wrapping_mul(16_777_619);
            hash = (hash ^ (low as u32)).wrapping_mul(16_777_619);
        }
    }
    proof {
        assert(value@.take(value@.len() as int) =~= value@);
    }
    hash
}


/// The amount by which the generator's state advances on each draw.
pub const STATE_STEP: u32 = 0x6d2b_79f5;

/// The mulberry32 output for a state that has just been advanced.
pub open spec fn mulberry32(state: u32) -> u32 {
    let v1 = (state ^ (state >> 15u32)).wrapping_mul(state | 1);
    let v2 = v1 ^ v1.wrapping_add((v1 ^ (v1 >> 7u32)).wrapping_mul(v1 | 61));
    v2 ^ (v2 >> 14u32)
}

/// The state after one draw.
pub open spec fn advance(state: u32) -> u32 {
    state.wrapping_add(STATE_STEP)
}

/// The value drawn from a generator in `state`.
pub open spec fn drawn(state: u32) -> u32 {
    mulberry32(advance(state))
}

/// Whether the value drawn from `state`, read as a fraction of 2^32, exceeds
/// `percent` / 100.
pub open spec fn chance_from(state: u32, percent: u64) -> bool {
    drawn(state) as int * 100 > percent as int * 0x1_0000_0000
}

/// The index below `len` picked by the value drawn from `state`: the value,
/// read as a fraction of 2^32, scaled by `len` and rounded down.
pub open spec fn index_from(state: u32, len: usize) -> int {
    (drawn(state) as int * len as int) / 0x1_0000_0000
}

/// The starting state for a seed: its hash, or 1 where the hash is 0.
pub open spec fn seed_state(seed: Seq<char>) -> u32 {
    let h = spec_hash_string(seed);
    if h == 0 {
        1
    } else {
        h
    }
}

/// A mulberry32 generator.
pub struct SeededRandom {
    state: u32,
}

impl SeededRandom {
    /// The generator's current state.
    pub closed spec fn state(&self) -> u32 {
        self.state
    }

    /// Seeds a generator from the hash of `seed`.
    pub fn new(seed: &str) -> (rng: Self)
        ensures
            rng.state() == seed_state(seed@),
    {
        let state = hash_string(seed);
        SeededRandom { state: if state == 0 { 1 } else { state } }
    }

    /// Advances the state and returns the next 32-bit value.
    pub fn next_u32(&mut self) -> (value: u32)
        ensures
            final(self).state() == advance(old(self).state()),
            value == drawn(old(self).state()),
    {
        self.state = self.state.wrapping_add(STATE_STEP);
        let mut value = self.state;
        value = (value ^ (value >> 15u32)).wrapping_mul(value | 1);
        value = value ^ value.wrapping_add((value ^ (value >> 7u32)).wrapping_mul(value | 61));
        value ^ (value >> 14u32)
    }

    /// Draws a value and tells whether it, read as a fraction of 2^32, exceeds
    /// `percent` / 100. For `percent` of at most 100 this is exactly the
    /// comparison of `next_u32() / 2^32` in `f64` against the decimal
    /// `percent / 100`: no multiple of 2^-32 lies between a two-digit decimal
    /// fraction and its nearest `f64`.
    pub fn chance(&mut self, percent: u64) -> (above: bool)
        requires
            percent <= 100,
        ensures
            final(self).state() == advance(old(self).state()),
            above == chance_from(old(self).state(), percent),
    {
        let value = self.next_u32();
        (value as u64) * 100 > percent * 0x1_0000_0000
    }

    /// Draws a value and scales it to an index below `len`, rounding down.
    /// The product of a 32-bit fraction and a length below 2^21 is exact in
    /// `f64`, so this is the index that floating point gives.
    pub fn index(&mut self, len: usize) -> (i: usize)
        requires
            0 < len <= 0x20_0000,
        ensures
            final(self).state() == advance(old(self).state()),
            i == index_from(old(self).state(), len),
            i < len,
    {
        let value = self.next_u32();
        proof {
            assert((value as int) * (len as int) <= 0xffff_ffff * 0x20_0000) by (nonlinear_arith)
                requires
                    value <= 0xffff_ffff,
                    len <= 0x20_0000,
            ;
        }
        let scaled: u64 = (value as u64) * (len as u64);
        proof {
            let v: int = value as int;
            let l: int = len as int;
            assert(v * l < 0x1_0000_0000 * l) by (nonlinear_arith)
                requires
                    v < 0x1_0000_0000,
                    l > 0,
            ;
            assert((v * l) / 0x1_0000_0000 < l) by (nonlinear_arith)
                requires
                    v * l < 0x1_0000_0000 * l,
                    v * l >= 0,
            ;
        }
        (scaled / 0x1_0000_0000) as usize
    }
}

} // verus!
