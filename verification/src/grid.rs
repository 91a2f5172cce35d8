//! The square, power-of-two texel domain that every field of one cascade shares.

use vstd::prelude::*;
use vstd::arithmetic::power2::{pow2, lemma_pow2_strictly_increases, lemma2_to64};
use crate::bits::{ilog2, pow2_u32};

verus! {

/// Largest admissible exponent: a grid of side `2^15` is the largest whose
/// texel count still fits a 32-bit word.
pub const MAX_LOGSIZE: u32 = 15;

/// Whether `size` can be the side of a grid: a power of two, at most `2^15`.
pub open spec fn valid_grid_size(size: nat) -> bool {
    exists|l: nat| l <= MAX_LOGSIZE && size == pow2(l)
}

/// Side length `N` of the grid together with `log2(N)`.
#[derive(Clone, Copy, Debug)]
pub struct Grid {
    size: u32,
    logsize: u32,
}

impl Grid {
    /// Side length `N`.
    pub closed spec fn spec_size(&self) -> u32 {
        self.size
    }

    /// `log2(N)`.
    pub closed spec fn spec_logsize(&self) -> u32 {
        self.logsize
    }

    /// The side is two to the power of the stored logarithm, and small enough
    /// that the texel count fits a machine word.
    pub open spec fn wf(&self) -> bool {
        &&& self.spec_logsize() <= MAX_LOGSIZE
        &&& self.spec_size() == pow2(self.spec_logsize() as nat)
    }

    /// Number of texels, `N * N`.
    pub open spec fn spec_texels(&self) -> nat {
        (self.spec_size() * self.spec_size()) as nat
    }

    /// The grid of side `size`, if `size` is a power of two no larger than `2^15`.
    pub fn new(size: u32) -> (grid: Option<Grid>)
        ensures
            grid is Some <==> valid_grid_size(size as nat),
            grid matches Some(g) ==> g.wf() && g.spec_size() == size,
    {
        if size == 0 {
            proof {
                assert forall|l: nat| pow2(l) != 0 by {
                    vstd::arithmetic::power2::lemma_pow2_pos(l);
                }
            }
            return None;
        }
        let logsize = ilog2(size);
        if logsize > MAX_LOGSIZE || pow2_u32(logsize) != size {
            proof {
                assert forall|l: nat| l <= MAX_LOGSIZE && size == pow2(l) implies false by {
                    lemma_pow2_between(l, logsize as nat);
                }
            }
            return None;
        }
        Some(Grid { size, logsize })
    }

    /// Side length `N`.
    #[verifier::when_used_as_spec(spec_size)]
    pub fn size(&self) -> (n: u32)
        ensures
            n == self.spec_size(),
    {
        self.size
    }

    /// `log2(N)`.
    #[verifier::when_used_as_spec(spec_logsize)]
    pub fn logsize(&self) -> (l: u32)
        ensures
            l == self.spec_logsize(),
    {
        self.logsize
    }

    /// Number of texels, `N * N`.
    pub fn texels(&self) -> (n: usize)
        requires
            self.wf(),
        ensures
            n == self.spec_texels(),
    {
        proof {
            lemma_grid_bounds(*self);
        }
        (self.size as usize) * (self.size as usize)
    }
}

/// A power of two that lies in `[2^l, 2^(l+1))` is `2^l`.
pub proof fn lemma_pow2_between(a: nat, l: nat)
    requires
        pow2(l) <= pow2(a) < pow2(l + 1),
    ensures
        a == l,
{
    if a < l {
        lemma_pow2_strictly_increases(a, l);
    } else if a > l {
        if a > l + 1 {
            lemma_pow2_strictly_increases(l + 1, a);
        }
    }
}

/// A well-formed grid of more than one texel has an even side.
pub proof fn lemma_grid_even(g: Grid)
    requires
        g.wf(),
        g.spec_size() >= 2,
    ensures
        g.spec_logsize() >= 1,
        g.spec_size() % 2 == 0,
{
    lemma2_to64();
    if g.spec_logsize() >= 1 {
        vstd::arithmetic::power2::lemma_pow2_unfold(g.spec_logsize() as nat);
    }
}

/// A well-formed grid has a side between 1 and `2^15`, so its texel count is
/// below `2^30`.
pub proof fn lemma_grid_bounds(g: Grid)
    requires
        g.wf(),
    ensures
        1 <= g.spec_size() <= 0x8000,
        g.spec_size() * g.spec_size() <= 0x4000_0000,
{
    lemma2_to64();
    vstd::arithmetic::power2::lemma_pow2_pos(g.spec_logsize() as nat);
    if g.spec_logsize() < MAX_LOGSIZE {
        lemma_pow2_strictly_increases(g.spec_logsize() as nat, 15);
    }
    let n = g.spec_size() as int;
    assert(n * n <= 0x4000_0000) by (nonlinear_arith)
        requires
            0 <= n <= 0x8000,
    ;
}

} // verus!
