//! Compositing of the cascades into one surface sample, and the placement of
//! the tiles of the instanced mesh.

use vstd::prelude::*;
use crate::params::SimConstants;
use crate::simulation::Simulation;
use crate::texture::Texel;

verus! {

/// Whether `out` can be the weighted sum of the three samples: each sample
/// scaled by the blend factor of its cascade, the scaled samples added from
/// the left in the order of the cascades. The kernel `scale` receives the
/// sample and the blend factor.
pub open spec fn weighted_sum_rel<S: Fn(Texel, u32) -> Texel, A: Fn(Texel, Texel) -> Texel>(
    scale: &S,
    sum: &A,
    consts: SimConstants,
    t0: Texel,
    t1: Texel,
    t2: Texel,
    out: Texel,
) -> bool {
    exists|s0: Texel, s1: Texel, s2: Texel, partial: Texel|
        {
            &&& #[trigger] call_ensures(*scale, (t0, consts.spec_cascade(0).scale_factor), s0)
            &&& #[trigger] call_ensures(*scale, (t1, consts.spec_cascade(1).scale_factor), s1)
            &&& #[trigger] call_ensures(*sum, (s0, s1), partial)
            &&& #[trigger] call_ensures(*scale, (t2, consts.spec_cascade(2).scale_factor), s2)
            &&& call_ensures(*sum, (partial, s2), out)
        }
}

/// Whether the kernel `f` accepts every sample and every blend factor.
pub open spec fn scale_total<S: Fn(Texel, u32) -> Texel>(f: &S) -> bool {
    forall|t: Texel, factor: u32| call_requires(*f, (t, factor))
}

/// Whether the kernel `f` accepts every pair of samples.
pub open spec fn add_total<A: Fn(Texel, Texel) -> Texel>(f: &A) -> bool {
    forall|a: Texel, b: Texel| call_requires(*f, (a, b))
}

/// The composited surface at one texel.
#[derive(Clone, Copy, PartialEq, Eq, Structural, Debug)]
pub struct Composite {
    /// Weighted sum of the displacement maps.
    pub displacement: Texel,
    /// Weighted sum of the normal maps.
    pub normal: Texel,
    /// Weighted sum of the foam maps.
    pub foam: Texel,
}

/// Scales three samples by the blend factors of their cascades and adds them
/// from the left.
fn weighted_sum<S: Fn(Texel, u32) -> Texel, A: Fn(Texel, Texel) -> Texel>(
    scale: &S,
    sum: &A,
    consts: &SimConstants,
    t0: Texel,
    t1: Texel,
    t2: Texel,
) -> (out: Texel)
    requires
        scale_total(scale),
        add_total(sum),
    ensures
        weighted_sum_rel(scale, sum, *consts, t0, t1, t2, out),
{
    let s0 = scale(t0, consts.cascade(0).scale_factor);
    let s1 = scale(t1, consts.cascade(1).scale_factor);
    let partial = sum(s0, s1);
    let s2 = scale(t2, consts.cascade(2).scale_factor);
    sum(partial, s2)
}

/// Samples the composited surface at texel `(x, y)`: displacement, normal and
/// foam are each the sum of the three cascades' maps at that texel, each
/// cascade weighted by the blend factor that the parameters give it.
pub fn composite<S: Fn(Texel, u32) -> Texel, A: Fn(Texel, Texel) -> Texel>(
    sim: &Simulation,
    consts: &SimConstants,
    x: u32,
    y: u32,
    scale: &S,
    sum: &A,
) -> (out: Composite)
    requires
        sim.wf(),
        x < sim.grid.spec_size(),
        y < sim.grid.spec_size(),
        scale_total(scale),
        add_total(sum),
    ensures
        weighted_sum_rel(
            scale,
            sum,
            *consts,
            sim.cascade0.displacement_map.at(x as nat, y as nat),
            sim.cascade1.displacement_map.at(x as nat, y as nat),
            sim.cascade2.displacement_map.at(x as nat, y as nat),
            out.displacement,
        ),
        weighted_sum_rel(
            scale,
            sum,
            *consts,
            sim.cascade0.normal_map.at(x as nat, y as nat),
            sim.cascade1.normal_map.at(x as nat, y as nat),
            sim.cascade2.normal_map.at(x as nat, y as nat),
            out.normal,
        ),
        weighted_sum_rel(
            scale,
            sum,
            *consts,
            sim.cascade0.foam_map.at(x as nat, y as nat),
            sim.cascade1.foam_map.at(x as nat, y as nat),
            sim.cascade2.foam_map.at(x as nat, y as nat),
            out.foam,
        ),
{
    let displacement = weighted_sum(
        scale,
        sum,
        consts,
        sim.cascade0.displacement_map.read(x, y),
        sim.cascade1.displacement_map.read(x, y),
        sim.cascade2.displacement_map.read(x, y),
    );
    let normal = weighted_sum(
        scale,
        sum,
        consts,
        sim.cascade0.normal_map.read(x, y),
        sim.cascade1.normal_map.read(x, y),
        sim.cascade2.normal_map.read(x, y),
    );
    let foam = weighted_sum(
        scale,
        sum,
        consts,
        sim.cascade0.foam_map.read(x, y),
        sim.cascade1.foam_map.read(x, y),
        sim.cascade2.foam_map.read(x, y),
    );
    Composite { displacement, normal, foam }
}

/// Column and row of the tile that instance `instance_index` draws, on a
/// square arrangement `instances` tiles wide.
pub fn instance_tile(instance_index: u32, instances: u32) -> (tile: (u32, u32))
    requires
        instances > 0,
    ensures
        tile.0 == instance_index % instances,
        tile.1 == instance_index / instances,
        tile.0 < instances,
        tile.1 * instances + tile.0 == instance_index,
        instance_index < instances * instances ==> tile.1 < instances,
{
    proof {
        let i = instance_index as int;
        let n = instances as int;
        vstd::arithmetic::div_mod::lemma_fundamental_div_mod(i, n);
        assert((i / n) * n == n * (i / n)) by (nonlinear_arith);
        if i < n * n {
            assert(i / n < n) by (nonlinear_arith)
                requires
                    i < n * n,
                    n > 0,
                    i == n * (i / n) + i % n,
                    0 <= i % n,
            ;
        }
    }
    (instance_index % instances, instance_index / instances)
}

} // verus!
