//! The parameter set of the simulation.
//!
//! Real-valued parameters are held as bit patterns of singles, like every
//! other real number in the library. Two parameter sets are compared the way
//! the numbers compare, not the patterns: a change of parameters is what
//! makes the next frame rebuild the spectrum.

use vstd::prelude::*;
use crate::bits::ilog2;
use crate::grid::{Grid, valid_grid_size};
use crate::single::{is_nan, same_single, single_eq};

verus! {

/// The parameters of one cascade.
#[derive(Clone, Copy, PartialEq, Eq, Structural, Debug)]
pub struct CascadeConstants {
    /// Patch length.
    pub lengthscale: u32,
    /// Lower edge of the band of wave numbers.
    pub cutoff_low: u32,
    /// Upper edge of the band of wave numbers.
    pub cutoff_high: u32,
    /// Weight of the cascade in the composited surface.
    pub scale_factor: u32,
}

/// The parameters of the simulation.
#[derive(Clone, Copy, Debug)]
pub struct SimConstants {
    /// Side of the grid; a power of two.
    pub size: u32,
    /// Patch length of cascade 0.
    pub lengthscale0: u32,
    /// Lower edge of the band of cascade 0; `1e-8` by default.
    pub cutoff_low0: u32,
    /// Upper edge of the band of cascade 0; `1.0` by default.
    pub cutoff_high0: u32,
    /// Patch length of cascade 1.
    pub lengthscale1: u32,
    /// Lower edge of the band of cascade 1; `1.0` by default.
    pub cutoff_low1: u32,
    /// Upper edge of the band of cascade 1; `2.0` by default.
    pub cutoff_high1: u32,
    /// Patch length of cascade 2.
    pub lengthscale2: u32,
    /// Lower edge of the band of cascade 2; `2.0` by default.
    pub cutoff_low2: u32,
    /// Upper edge of the band of cascade 2; `999.0` by default.
    pub cutoff_high2: u32,
    /// Blend factor of cascade 0; `0.8` by default.
    pub lengthscale0_sf: u32,
    /// Blend factor of cascade 1; `1.0` by default.
    pub lengthscale1_sf: u32,
    /// Blend factor of cascade 2; `1.0` by default.
    pub lengthscale2_sf: u32,
    /// Distance between neighbouring mesh vertices; `0.4` by default.
    pub mesh_step: u32,
    /// Standard deviation of the noise; `1.0` by default.
    pub standard_deviation: u32,
    /// Mean of the noise; `0.0` by default.
    pub mean: u32,
    /// Water depth; `500.0` by default.
    pub depth: u32,
    /// Gravitational acceleration; `9.81` by default.
    pub gravity: u32,
    /// Exponent factor of the spectral peak; `1.25` by default.
    pub beta: u32,
    /// Peak enhancement; `3.3` by default.
    pub gamma: u32,
    /// Wind speed; `0.5` by default.
    pub wind_speed: u32,
    /// Wind direction in radians; a quarter of pi by default.
    pub wind_offset: u32,
    /// Fetch; `100000.0` by default.
    pub fetch: u32,
    /// Strength of the horizontal displacement; `0.6` by default.
    pub choppiness: u32,
    /// Base-2 logarithm of `size`, once `refresh_logsize` has run.
    pub logsize: u32,
    /// Swell; `0.1` by default.
    pub swell: u32,
    /// Step of the directional integration; `0.01` by default.
    pub integration_step: u32,
    /// Offset added to the jacobian signal; `0.92` by default.
    pub foam_bias: u32,
    /// Rate at which foam fades; `0.3` by default.
    pub foam_decay: u32,
    /// Foam injection threshold; `-0.3` by default.
    pub injection_threshold: u32,
    /// Foam injection amount; `1.0` by default.
    pub injection_amount: u32,
    /// Height by which the mesh is lowered; `4.5` by default.
    pub height_offset: u32,
    /// Number of mesh tiles along one side.
    pub instances: u32,
    /// Overlap factor of neighbouring tiles; `0.99` by default.
    pub instance_micro_offset: u32,
    /// Seed of the noise field.
    pub seed: u32,
}

impl SimConstants {
    /// The default parameter set.
    pub open spec fn spec_default() -> SimConstants {
        SimConstants {
            size: 128,
            lengthscale0: 20,
            cutoff_low0: 0x322bcc77,
            cutoff_high0: 0x3f800000,
            lengthscale1: 124,
            cutoff_low1: 0x3f800000,
            cutoff_high1: 0x40000000,
            lengthscale2: 256,
            cutoff_low2: 0x40000000,
            cutoff_high2: 0x4479c000,
            lengthscale0_sf: 0x3f4ccccd,
            lengthscale1_sf: 0x3f800000,
            lengthscale2_sf: 0x3f800000,
            mesh_step: 0x3ecccccd,
            standard_deviation: 0x3f800000,
            mean: 0x00000000,
            depth: 0x43fa0000,
            gravity: 0x411cf5c3,
            beta: 0x3fa00000,
            gamma: 0x40533333,
            wind_speed: 0x3f000000,
            wind_offset: 0x3f490fdb,
            fetch: 0x47c35000,
            choppiness: 0x3f19999a,
            logsize: 0,
            swell: 0x3dcccccd,
            integration_step: 0x3c23d70a,
            foam_bias: 0x3f6b851f,
            foam_decay: 0x3e99999a,
            injection_threshold: 0xbe99999a,
            injection_amount: 0x3f800000,
            height_offset: 0x40900000,
            instances: 5,
            instance_micro_offset: 0x3f7d70a4,
            seed: 1,
        }
    }

    /// Whether the two parameter sets hold equal values: the whole numbers
    /// agree, and the real numbers are equal as numbers.
    pub open spec fn spec_equals(&self, other: &SimConstants) -> bool {
        &&& self.size == other.size
        &&& self.lengthscale0 == other.lengthscale0
        &&& single_eq(self.cutoff_low0, other.cutoff_low0)
        &&& single_eq(self.cutoff_high0, other.cutoff_high0)
        &&& self.lengthscale1 == other.lengthscale1
        &&& single_eq(self.cutoff_low1, other.cutoff_low1)
        &&& single_eq(self.cutoff_high1, other.cutoff_high1)
        &&& self.lengthscale2 == other.lengthscale2
        &&& single_eq(self.cutoff_low2, other.cutoff_low2)
        &&& single_eq(self.cutoff_high2, other.cutoff_high2)
        &&& single_eq(self.lengthscale0_sf, other.lengthscale0_sf)
        &&& single_eq(self.lengthscale1_sf, other.lengthscale1_sf)
        &&& single_eq(self.lengthscale2_sf, other.lengthscale2_sf)
        &&& single_eq(self.mesh_step, other.mesh_step)
        &&& single_eq(self.standard_deviation, other.standard_deviation)
        &&& single_eq(self.mean, other.mean)
        &&& single_eq(self.depth, other.depth)
        &&& single_eq(self.gravity, other.gravity)
        &&& single_eq(self.beta, other.beta)
        &&& single_eq(self.gamma, other.gamma)
        &&& single_eq(self.wind_speed, other.wind_speed)
        &&& single_eq(self.wind_offset, other.wind_offset)
        &&& single_eq(self.fetch, other.fetch)
        &&& single_eq(self.choppiness, other.choppiness)
        &&& self.logsize == other.logsize
        &&& single_eq(self.swell, other.swell)
        &&& single_eq(self.integration_step, other.integration_step)
        &&& single_eq(self.foam_bias, other.foam_bias)
        &&& single_eq(self.foam_decay, other.foam_decay)
        &&& single_eq(self.injection_threshold, other.injection_threshold)
        &&& single_eq(self.injection_amount, other.injection_amount)
        &&& single_eq(self.height_offset, other.height_offset)
        &&& self.instances == other.instances
        &&& single_eq(self.instance_micro_offset, other.instance_micro_offset)
        &&& self.seed == other.seed
    }

    /// Compares two parameter sets value by value.
    #[verifier::when_used_as_spec(spec_equals)]
    pub fn equals(&self, other: &SimConstants) -> (r: bool)
        ensures
            r == self.spec_equals(other),
    {
        let whole = self.size == other.size
            && self.lengthscale0 == other.lengthscale0
            && self.lengthscale1 == other.lengthscale1
            && self.lengthscale2 == other.lengthscale2
            && self.logsize == other.logsize
            && self.instances == other.instances
            && self.seed == other.seed;
        let real0 = same_single(self.cutoff_low0, other.cutoff_low0)
            && same_single(self.cutoff_high0, other.cutoff_high0)
            && same_single(self.cutoff_low1, other.cutoff_low1)
            && same_single(self.cutoff_high1, other.cutoff_high1)
            && same_single(self.cutoff_low2, other.cutoff_low2)
            && same_single(self.cutoff_high2, other.cutoff_high2)
            && same_single(self.lengthscale0_sf, other.lengthscale0_sf);
        let real1 = same_single(self.lengthscale1_sf, other.lengthscale1_sf)
            && same_single(self.lengthscale2_sf, other.lengthscale2_sf)
            && same_single(self.mesh_step, other.mesh_step)
            && same_single(self.standard_deviation, other.standard_deviation)
            && same_single(self.mean, other.mean)
            && same_single(self.depth, other.depth)
            && same_single(self.gravity, other.gravity);
        let real2 = same_single(self.beta, other.beta)
            && same_single(self.gamma, other.gamma)
            && same_single(self.wind_speed, other.wind_speed)
            && same_single(self.wind_offset, other.wind_offset)
            && same_single(self.fetch, other.fetch)
            && same_single(self.choppiness, other.choppiness)
            && same_single(self.swell, other.swell);
        let real3 = same_single(self.integration_step, other.integration_step)
            && same_single(self.foam_bias, other.foam_bias)
            && same_single(self.foam_decay, other.foam_decay)
            && same_single(self.injection_threshold, other.injection_threshold)
            && same_single(self.injection_amount, other.injection_amount)
            && same_single(self.height_offset, other.height_offset)
            && same_single(self.instance_micro_offset, other.instance_micro_offset);
        whole && real0 && real1 && real2 && real3
    }

    /// The parameters of cascade `index`.
    pub open spec fn spec_cascade(&self, index: u32) -> CascadeConstants {
        if index == 0 {
            CascadeConstants {
                lengthscale: self.lengthscale0,
                cutoff_low: self.cutoff_low0,
                cutoff_high: self.cutoff_high0,
                scale_factor: self.lengthscale0_sf,
            }
        } else if index == 1 {
            CascadeConstants {
                lengthscale: self.lengthscale1,
                cutoff_low: self.cutoff_low1,
                cutoff_high: self.cutoff_high1,
                scale_factor: self.lengthscale1_sf,
            }
        } else {
            CascadeConstants {
                lengthscale: self.lengthscale2,
                cutoff_low: self.cutoff_low2,
                cutoff_high: self.cutoff_high2,
                scale_factor: self.lengthscale2_sf,
            }
        }
    }

    /// The parameters of cascade `index`, of the three cascades 0, 1 and 2.
    #[verifier::when_used_as_spec(spec_cascade)]
    pub fn cascade(&self, index: u32) -> (c: CascadeConstants)
        requires
            index < 3,
        ensures
            c == self.spec_cascade(index),
    {
        if index == 0 {
            CascadeConstants {
                lengthscale: self.lengthscale0,
                cutoff_low: self.cutoff_low0,
                cutoff_high: self.cutoff_high0,
                scale_factor: self.lengthscale0_sf,
            }
        } else if index == 1 {
            CascadeConstants {
                lengthscale: self.lengthscale1,
                cutoff_low: self.cutoff_low1,
                cutoff_high: self.cutoff_high1,
                scale_factor: self.lengthscale1_sf,
            }
        } else {
            CascadeConstants {
                lengthscale: self.lengthscale2,
                cutoff_low: self.cutoff_low2,
                cutoff_high: self.cutoff_high2,
                scale_factor: self.lengthscale2_sf,
            }
        }
    }

    /// The grid of side `size`, if `size` can be the side of a grid.
    pub fn grid(&self) -> (grid: Option<Grid>)
        ensures
            grid is Some <==> valid_grid_size(self.size as nat),
            grid matches Some(g) ==> g.wf() && g.spec_size() == self.size,
    {
        Grid::new(self.size)
    }

    /// Stores the logarithm of `size`; every other parameter is kept.
    pub fn refresh_logsize(&mut self)
        requires
            old(self).size > 0,
        ensures
            *final(self) == (SimConstants { logsize: final(self).logsize, ..*old(self) }),
            vstd::arithmetic::power2::pow2(final(self).logsize as nat) <= old(self).size
                < vstd::arithmetic::power2::pow2((final(self).logsize + 1) as nat),
    {
        self.logsize = ilog2(self.size);
    }
}

impl Default for SimConstants {
    /// The default parameter set.
    fn default() -> (c: SimConstants)
        ensures
            c == SimConstants::spec_default(),
    {
        SimConstants {
            size: 128,
            lengthscale0: 20,
            cutoff_low0: 0x322bcc77,
            cutoff_high0: 0x3f800000,
            lengthscale1: 124,
            cutoff_low1: 0x3f800000,
            cutoff_high1: 0x40000000,
            lengthscale2: 256,
            cutoff_low2: 0x40000000,
            cutoff_high2: 0x4479c000,
            lengthscale0_sf: 0x3f4ccccd,
            lengthscale1_sf: 0x3f800000,
            lengthscale2_sf: 0x3f800000,
            mesh_step: 0x3ecccccd,
            standard_deviation: 0x3f800000,
            mean: 0x00000000,
            depth: 0x43fa0000,
            gravity: 0x411cf5c3,
            beta: 0x3fa00000,
            gamma: 0x40533333,
            wind_speed: 0x3f000000,
            wind_offset: 0x3f490fdb,
            fetch: 0x47c35000,
            choppiness: 0x3f19999a,
            logsize: 0,
            swell: 0x3dcccccd,
            integration_step: 0x3c23d70a,
            foam_bias: 0x3f6b851f,
            foam_decay: 0x3e99999a,
            injection_threshold: 0xbe99999a,
            injection_amount: 0x3f800000,
            height_offset: 0x40900000,
            instances: 5,
            instance_micro_offset: 0x3f7d70a4,
            seed: 1,
        }
    }
}

/// A parameter set without NaN equals itself, so a frame that changes nothing
/// does not rebuild the spectrum.
pub proof fn lemma_equals_reflexive(c: SimConstants)
    requires
        !is_nan(c.cutoff_low0),
        !is_nan(c.cutoff_high0),
        !is_nan(c.cutoff_low1),
        !is_nan(c.cutoff_high1),
        !is_nan(c.cutoff_low2),
        !is_nan(c.cutoff_high2),
        !is_nan(c.lengthscale0_sf),
        !is_nan(c.lengthscale1_sf),
        !is_nan(c.lengthscale2_sf),
        !is_nan(c.mesh_step),
        !is_nan(c.standard_deviation),
        !is_nan(c.mean),
        !is_nan(c.depth),
        !is_nan(c.gravity),
        !is_nan(c.beta),
        !is_nan(c.gamma),
        !is_nan(c.wind_speed),
        !is_nan(c.wind_offset),
        !is_nan(c.fetch),
        !is_nan(c.choppiness),
        !is_nan(c.swell),
        !is_nan(c.integration_step),
        !is_nan(c.foam_bias),
        !is_nan(c.foam_decay),
        !is_nan(c.injection_threshold),
        !is_nan(c.injection_amount),
        !is_nan(c.height_offset),
        !is_nan(c.instance_micro_offset),
    ensures
        c.spec_equals(&c),
{
}

/// Comparing parameter sets is symmetric.
pub proof fn lemma_equals_symmetric(a: SimConstants, b: SimConstants)
    ensures
        a.spec_equals(&b) == b.spec_equals(&a),
{
}

} // verus!
