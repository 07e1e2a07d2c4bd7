//! A seedable pseudo-random source (xorshift64) for the randomised seeding
//! entry points, so that a fixed seed gives a reproducible seeding.
use vstd::prelude::*;

verus! {

/// State used in place of the seed 0, from which xorshift never leaves.
pub const DEFAULT_SEED: u64 = 0x9e3779b97f4a7c15;

/// One xorshift64 step.
pub open spec fn xorshift(x: u64) -> u64 {
    let a = x ^ (x << 13u64);
    let b = a ^ (a >> 7u64);
    b ^ (b << 17u64)
}

/// The state after `n` steps from `s`.
pub open spec fn nth_state(s: u64, n: nat) -> u64
    decreases n,
{
    if n == 0 {
        s
    } else {
        xorshift(nth_state(s, (n - 1) as nat))
    }
}

/// The `n` 32-bit draws that follow state `s`: the high half of each of the
/// next `n` states.
pub open spec fn draws_after(s: u64, n: nat) -> Seq<u32> {
    Seq::new(n, |i: int| (nth_state(s, (i + 1) as nat) >> 32u64) as u32)
}

/// A xorshift64 generator.
pub struct Rng {
    state: u64,
}

impl Rng {
    pub closed spec fn state(&self) -> u64 {
        self.state
    }

    /// A generator started from `seed` (0 stands for `DEFAULT_SEED`).
    pub fn new(seed: u64) -> (r: Rng)
        ensures
            r.state() == if seed == 0 { DEFAULT_SEED } else { seed },
    {
        Rng { state: if seed == 0 { DEFAULT_SEED } else { seed } }
    }

    /// Steps the generator and returns its new state.
    pub fn next_u64(&mut self) -> (r: u64)
        ensures
            final(self).state() == xorshift(old(self).state()),
            r == final(self).state(),
    {
        let x = self.state;
        let a = x ^ (x << 13u64);
        let b = a ^ (a >> 7u64);
        self.state = b ^ (b << 17u64);
        self.state
    }

    /// `n` draws of 32 bits each, for `Game::scatter`.
    pub fn draws(&mut self, n: usize) -> (r: Vec<u32>)
        ensures
            r@ == draws_after(old(self).state(), n as nat),
            final(self).state() == nth_state(old(self).state(), n as nat),
    {
        let ghost s = self.state();
        let mut out: Vec<u32> = Vec::new();
        let mut i: usize = 0;
        while i < n
            invariant
                i <= n,
                self.state() == nth_state(s, i as nat),
                out@ == draws_after(s, i as nat),
            decreases n - i,
        {
            let x = self.next_u64();
            out.push((x >> 32u64) as u32);
            proof {
                assert(out@ =~= draws_after(s, (i + 1) as nat));
            }
            i = i + 1;
        }
        out
    }
}

} // verus!
