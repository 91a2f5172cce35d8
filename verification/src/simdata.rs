//! Data that all cascades share: the Gaussian noise field and the butterfly
//! table.

use vstd::prelude::*;
use crate::butterfly::ButterflyTable;
use crate::grid::{Grid, lemma_grid_bounds};
use crate::rng::{Xoshiro256plus, uniform_draw, xoshiro_seeded, xoshiro_state_after};
use crate::texture::{Complex, Texel, Texture, ZERO_BITS, ONE_BITS};

verus! {

/// Whether the kernel `f` accepts every pair of draws.
pub open spec fn gaussian_total<F: Fn(u64, u64) -> Complex>(f: &F) -> bool {
    forall|u1: u64, u2: u64| call_requires(*f, (u1, u2))
}

/// Whether `tex` can be the noise field of `texels` texels for `seed`: texel
/// `i` holds what the kernel makes of draws `2 * i` and `2 * i + 1` of the
/// seeded generator, followed by the constants `0.0` and `1.0`.
pub open spec fn noise_rel<F: Fn(u64, u64) -> Complex>(
    f: &F,
    seed: u64,
    texels: nat,
    tex: Seq<Texel>,
) -> bool {
    &&& tex.len() == texels
    &&& forall|i: int|
        0 <= i < texels ==> {
            &&& call_ensures(
                *f,
                (uniform_draw(seed, (2 * i) as nat), uniform_draw(seed, (2 * i + 1) as nat)),
                (#[trigger] tex[i]).spec_xy(),
            )
            &&& tex[i].z == ZERO_BITS
            &&& tex[i].w == ONE_BITS
        }
}

/// Whether the kernel `f` returns one result only for each input.
pub open spec fn gaussian_deterministic<F: Fn(u64, u64) -> Complex>(f: &F) -> bool {
    forall|u1: u64, u2: u64, r1: Complex, r2: Complex|
        call_ensures(*f, (u1, u2), r1) && call_ensures(*f, (u1, u2), r2) ==> r1 == r2
}

/// With a deterministic kernel the noise field is determined by the seed.
pub proof fn lemma_noise_determined<F: Fn(u64, u64) -> Complex>(
    f: &F,
    seed: u64,
    texels: nat,
    a: Seq<Texel>,
    b: Seq<Texel>,
)
    requires
        gaussian_deterministic(f),
        noise_rel(f, seed, texels, a),
        noise_rel(f, seed, texels, b),
    ensures
        a == b,
{
    assert forall|i: int| 0 <= i < texels implies a[i] == b[i] by {
        assert(a[i].spec_xy() == b[i].spec_xy());
    }
    assert(a =~= b);
}

/// The noise field and the butterfly table of one grid.
pub struct SimData {
    /// One complex Gaussian sample per texel.
    pub gaussian_tex: Texture,
    /// The butterfly table of the grid.
    pub butterfly: ButterflyTable,
}

impl SimData {
    /// Both members are well formed and belong to `grid`.
    pub open spec fn fits(&self, grid: Grid) -> bool {
        &&& self.gaussian_tex.is_square(grid.spec_size())
        &&& self.butterfly.wf()
        &&& self.butterfly.spec_grid() == grid
    }

    /// Draws the noise field for `seed` and computes the butterfly table.
    ///
    /// The kernel `gaussian_number` turns two uniform draws, each an integer
    /// below `2^53` standing for that integer over `2^53`, into one complex
    /// Gaussian sample.
    pub fn new<F: Fn(u64, u64) -> Complex>(grid: &Grid, seed: u32, gaussian_number: &F) -> (data:
        SimData)
        requires
            grid.wf(),
            gaussian_total(gaussian_number),
        ensures
            data.fits(*grid),
            noise_rel(gaussian_number, seed as u64, grid.spec_texels(), data.gaussian_tex@),
    {
        let gaussian_tex = SimData::gaussian_noise(grid, seed, gaussian_number);
        let butterfly = ButterflyTable::new(*grid);
        SimData { gaussian_tex, butterfly }
    }

    /// Draws the noise field for `seed`: two uniform draws per texel, in
    /// row-major order, from a generator seeded once.
    pub fn gaussian_noise<F: Fn(u64, u64) -> Complex>(
        grid: &Grid,
        seed: u32,
        gaussian_number: &F,
    ) -> (tex: Texture)
        requires
            grid.wf(),
            gaussian_total(gaussian_number),
        ensures
            tex.is_square(grid.spec_size()),
            noise_rel(gaussian_number, seed as u64, grid.spec_texels(), tex@),
    {
        let count = grid.texels();
        let mut rng = Xoshiro256plus::new(seed as u64);
        let mut data: Vec<Texel> = Vec::new();
        let ghost start = xoshiro_seeded(seed as u64);
        let mut i: usize = 0;
        while i < count
            invariant
                gaussian_total(gaussian_number),
                i <= count,
                data@.len() == i,
                rng@ == xoshiro_state_after(start, (2 * i) as nat),
                start == xoshiro_seeded(seed as u64),
                noise_rel(gaussian_number, seed as u64, i as nat, data@),
            decreases count - i,
        {
            let u1 = rng.next();
            let u2 = rng.next();
            let pair = gaussian_number(u1, u2);
            data.push(Texel { x: pair.re, y: pair.im, z: ZERO_BITS, w: ONE_BITS });
            proof {
                assert(xoshiro_state_after(start, (2 * i + 2) as nat) == rng@) by {
                    reveal_with_fuel(xoshiro_state_after, 3);
                }
            }
            i = i + 1;
        }
        proof {
            lemma_grid_bounds(*grid);
        }
        Texture::from_texels(grid.size(), grid.size(), data)
    }
}

} // verus!
