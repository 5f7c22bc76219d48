use vstd::prelude::*;

verus! {

/// The DSD idle pattern: what a DSD output plays as silence.
pub const DSD_SILENCE: u32 = 0x69696969;

/// A packed DSD sample word: 32 one-bit samples.
#[derive(Clone, Copy, Debug, Default, PartialEq, Eq, PartialOrd, Structural)]
pub struct DsdU32(pub u32);

/// The number of set bits of `x`.
pub open spec fn popcount(x: nat) -> nat
    decreases x,
{
    if x == 0 {
        0
    } else {
        (x % 2) + popcount(x / 2)
    }
}

proof fn lemma_popcount_bound(x: nat, bits: nat)
    requires
        x < pow2_nat(bits),
    ensures
        popcount(x) <= bits,
    decreases bits,
{
    if bits > 0 && x > 0 {
        lemma_popcount_bound(x / 2, (bits - 1) as nat);
    }
}

pub open spec fn pow2_nat(n: nat) -> nat
    decreases n,
{
    if n == 0 {
        1
    } else {
        2 * pow2_nat((n - 1) as nat)
    }
}

/// `a + b` wrapped around to 32 bits.
pub open spec fn wrapping_sum(a: u32, b: u32) -> int {
    (a + b) % 0x1_0000_0000
}

/// `a - b` wrapped around to 32 bits.
pub open spec fn wrapping_diff(a: u32, b: u32) -> int {
    (a - b + 0x1_0000_0000) % 0x1_0000_0000
}

/// Subtracting a word after adding it gives back the word it was added to.
pub proof fn law_add_then_sub(a: u32, b: u32)
    ensures
        wrapping_diff(wrapping_sum(a, b) as u32, b) == a,
{
}

impl DsdU32 {
    /// The sum of two words, wrapping around.
    pub fn add(self, rhs: DsdU32) -> (r: DsdU32)
        ensures
            r.0 == wrapping_sum(self.0, rhs.0),
    {
        DsdU32(self.0.wrapping_add(rhs.0))
    }

    /// The difference of two words, wrapping around.
    pub fn sub(self, rhs: DsdU32) -> (r: DsdU32)
        ensures
            r.0 == wrapping_diff(self.0, rhs.0),
    {
        DsdU32(self.0.wrapping_sub(rhs.0))
    }

    /// A DSD word is never out of range: clamping leaves it as it is.
    pub fn clamped(self) -> (r: DsdU32)
        ensures
            r == self,
    {
        self
    }

    /// The word as it is sent to the device.
    pub fn into_raw_sample(self) -> (r: u32)
        ensures
            r == self.0,
    {
        self.0
    }

    /// The silence word.
    pub fn equilibrium() -> (r: DsdU32)
        ensures
            r.0 == DSD_SILENCE,
    {
        DsdU32(DSD_SILENCE)
    }

    /// A PCM sample has no DSD form: it becomes silence.
    pub fn from_pcm_sample() -> (r: DsdU32)
        ensures
            r.0 == DSD_SILENCE,
    {
        DsdU32(DSD_SILENCE)
    }

    /// A 32-bit word holds packed DSD data: it passes through.
    pub fn from_u32_sample(s: u32) -> (r: DsdU32)
        ensures
            r.0 == s,
    {
        DsdU32(s)
    }

    /// A signed 32-bit word holds packed DSD data: its bits pass through.
    pub fn from_i32_sample(s: i32) -> (r: DsdU32)
        ensures
            r.0 == (if s >= 0 { s as int } else { s + 0x1_0000_0000 }),
    {
        let u = s as u32;
        assert(u == (if s >= 0 { s as int } else { s + 0x1_0000_0000 })) by (bit_vector)
            requires
                u == s as u32,
        ;
        DsdU32(u)
    }

    /// The number of set bits of the word.
    pub fn count_ones(self) -> (r: u32)
        ensures
            r == popcount(self.0 as nat),
            r <= 32,
    {
        let mut v: u32 = self.0;
        let mut c: u32 = 0;
        proof {
            reveal_with_fuel(pow2_nat, 33);
            assert(pow2_nat(32) == 0x1_0000_0000);
            lemma_popcount_bound(self.0 as nat, 32);
        }
        while v > 0
            invariant
                c + popcount(v as nat) == popcount(self.0 as nat),
                popcount(self.0 as nat) <= 32,
            decreases v,
        {
            c = c + v % 2;
            v = v / 2;
        }
        c
    }

    /// How far the density of ones is from the middle: the number of set bits
    /// less 16 (from -16 to 16). The player scales it by 1/16 for level meters.
    pub fn level(self) -> (r: i32)
        ensures
            r == popcount(self.0 as nat) - 16,
            -16 <= r <= 16,
    {
        let ones = self.count_ones();
        ones as i32 - 16
    }

    /// DSD formats are never processed like PCM.
    pub fn is_dsd() -> (r: bool)
        ensures
            r,
    {
        true
    }
}

} // verus!
