//! Running the passes of a frame, one by one, on a simulation.
//!
//! `run_pass` carries out a single pass of the list that `plan_frame` draws
//! up. `Simulation::frame` draws up that list and runs every pass of it, in
//! the order of the list.

use vstd::prelude::*;
use vstd::arithmetic::power2::pow2;
use crate::butterfly::ButterflyTable;
use crate::cascade::{Cascade, DeltaTerms, Deltas, Evolved, deltas_rel, deltas_total, evolve_rel,
    evolve_total};
use crate::fft::{FFTData, FourierTransform, ifft2d_rel, kernel_total, lemma_stages_extend,
    nth_step_rel, permute, permute_rel, pingpong_step_rel, rescale_total, stages_rel};
use crate::grid::Grid;
use crate::params::{CascadeConstants, SimConstants};
use crate::schedule::{Field, Pass, cascade_passes, frame_passes, ifft2d_pass, ifft2d_passes,
    initial_passes, plan_frame, setup_passes};
use crate::simdata::SimData;
use crate::simulation::{CASCADES, Simulation, cascade_step_rel, frame_cascade_rel,
    initial_cascade_rel};
use crate::spectrum::{Amplitude, WaveVector, density_total, initial_rel, initial_spectra,
    pack_conjugates, packed, wave_vector_total};
use crate::texture::{Complex, Texel};

verus! {

/// The texels of the transform buffer of cascade `c` that carries `field`.
pub open spec fn field_view(c: Cascade, field: Field) -> Seq<Texel> {
    match field {
        Field::HDisplacement => c.h_displacement@,
        Field::VDisplacement => c.v_displacement@,
        Field::HSlope => c.h_slope@,
        Field::Jacobian => c.jacobian@,
    }
}

/// The wave vectors and the spectrum of `b` are those of `a`.
pub open spec fn same_inputs(a: Cascade, b: Cascade) -> bool {
    &&& b.wave_tex@ == a.wave_tex@
    &&& b.initial_spectrum_tex@ == a.initial_spectrum_tex@
}

/// The displacement, normal and foam maps of `b` are those of `a`.
pub open spec fn same_maps(a: Cascade, b: Cascade) -> bool {
    &&& b.displacement_map@ == a.displacement_map@
    &&& b.normal_map@ == a.normal_map@
    &&& b.foam_map@ == a.foam_map@
}

/// The transform buffers of `b`, but perhaps the one of `field`, are those
/// of `a`.
pub open spec fn same_fields_but(a: Cascade, b: Cascade, field: Field) -> bool {
    &&& field != Field::HDisplacement ==> b.h_displacement@ == a.h_displacement@
    &&& field != Field::VDisplacement ==> b.v_displacement@ == a.v_displacement@
    &&& field != Field::HSlope ==> b.h_slope@ == a.h_slope@
    &&& field != Field::Jacobian ==> b.jacobian@ == a.jacobian@
}

/// All four transform buffers of `b` are those of `a`.
pub open spec fn same_fields(a: Cascade, b: Cascade) -> bool {
    &&& b.h_displacement@ == a.h_displacement@
    &&& b.v_displacement@ == a.v_displacement@
    &&& b.h_slope@ == a.h_slope@
    &&& b.jacobian@ == a.jacobian@
}

/// The cascade that a pass works on, if it works on one.
pub open spec fn pass_cascade(pass: Pass) -> Option<u32> {
    match pass {
        Pass::PrecomputeButterfly => None,
        Pass::RebuildMesh => None,
        Pass::InitialSpectra { cascade } => Some(cascade),
        Pass::PackConjugates { cascade } => Some(cascade),
        Pass::EvolveSpectra { cascade } => Some(cascade),
        Pass::HStep { cascade, field, data } => Some(cascade),
        Pass::VStep { cascade, field, data } => Some(cascade),
        Pass::Permute { cascade, field } => Some(cascade),
        Pass::ProcessDeltas { cascade } => Some(cascade),
    }
}

/// Whether a pass can run on `grid`: it names one of the three cascades, a
/// butterfly stage is one of the table, and a spectrum is synthesised only on
/// a grid of more than one texel.
pub open spec fn pass_fits(grid: Grid, pass: Pass) -> bool {
    &&& pass_cascade(pass) matches Some(c) ==> c < CASCADES
    &&& pass matches Pass::InitialSpectra { cascade } ==> grid.spec_size() >= 2
    &&& pass matches Pass::HStep { cascade, field, data } ==> data.stage < grid.spec_logsize()
    &&& pass matches Pass::VStep { cascade, field, data } ==> data.stage < grid.spec_logsize()
}

/// Whether `after` and `scratch_after` can be what a pass leaves of the
/// cascade `before` that it works on and of the scratch texture.
pub open spec fn cascade_pass_rel<
    Wv: Fn(u32, i32, i32) -> WaveVector,
    Dn: Fn(u32, WaveVector, Complex) -> Amplitude,
    Ev: Fn(Texel, Texel) -> Evolved,
    Bf: Fn(Complex, Complex, u32, u32) -> Complex,
    Rs: Fn(u32) -> u32,
    Dl: Fn(Deltas, u32) -> DeltaTerms,
>(
    wave_vector: &Wv,
    density: &Dn,
    evolve: &Ev,
    butterfly: &Bf,
    rescale: &Rs,
    deltas: &Dl,
    band: CascadeConstants,
    logsize: nat,
    noise: Seq<Texel>,
    pass: Pass,
    before: Cascade,
    scratch_before: Seq<Texel>,
    after: Cascade,
    scratch_after: Seq<Texel>,
) -> bool {
    let n = pow2(logsize);
    match pass {
        Pass::InitialSpectra { cascade } => {
            &&& initial_rel(
                wave_vector,
                density,
                band,
                n,
                noise,
                after.wave_tex@,
                after.initial_spectrum_tex@,
            )
            &&& same_maps(before, after)
            &&& same_fields(before, after)
            &&& scratch_after == scratch_before
        },
        Pass::PackConjugates { cascade } => {
            &&& after.initial_spectrum_tex@ == packed(n, before.initial_spectrum_tex@)
            &&& after.wave_tex@ == before.wave_tex@
            &&& same_maps(before, after)
            &&& same_fields(before, after)
            &&& scratch_after == scratch_before
        },
        Pass::EvolveSpectra { cascade } => {
            &&& evolve_rel(
                evolve,
                n * n,
                before.wave_tex@,
                before.initial_spectrum_tex@,
                after.h_displacement@,
                after.v_displacement@,
                after.h_slope@,
                after.jacobian@,
            )
            &&& same_inputs(before, after)
            &&& same_maps(before, after)
            &&& scratch_after == scratch_before
        },
        Pass::HStep { cascade, field, data } => {
            &&& pingpong_step_rel(
                butterfly,
                logsize,
                false,
                data,
                field_view(before, field),
                scratch_before,
                field_view(after, field),
                scratch_after,
            )
            &&& same_fields_but(before, after, field)
            &&& same_inputs(before, after)
            &&& same_maps(before, after)
        },
        Pass::VStep { cascade, field, data } => {
            &&& pingpong_step_rel(
                butterfly,
                logsize,
                true,
                data,
                field_view(before, field),
                scratch_before,
                field_view(after, field),
                scratch_after,
            )
            &&& same_fields_but(before, after, field)
            &&& same_inputs(before, after)
            &&& same_maps(before, after)
        },
        Pass::Permute { cascade, field } => {
            &&& permute_rel(rescale, n, field_view(before, field), field_view(after, field))
            &&& same_fields_but(before, after, field)
            &&& same_inputs(before, after)
            &&& same_maps(before, after)
            &&& scratch_after == scratch_before
        },
        Pass::ProcessDeltas { cascade } => {
            &&& deltas_rel(
                deltas,
                n * n,
                before.h_displacement@,
                before.v_displacement@,
                before.h_slope@,
                before.jacobian@,
                before.foam_map@,
                after.displacement_map@,
                after.normal_map@,
                after.foam_map@,
            )
            &&& same_inputs(before, after)
            &&& same_fields(before, after)
            &&& scratch_after == scratch_before
        },
        _ => after.same_contents(before) && scratch_after == scratch_before,
    }
}

/// Whether `after` can be what a pass leaves of the simulation `before`: the
/// cascade that the pass names and the scratch texture are changed as the
/// pass prescribes, and every other texture is kept. Filling the butterfly
/// table and rebuilding the mesh change no texture.
pub open spec fn pass_rel<
    Wv: Fn(u32, i32, i32) -> WaveVector,
    Dn: Fn(u32, WaveVector, Complex) -> Amplitude,
    Ev: Fn(Texel, Texel) -> Evolved,
    Bf: Fn(Complex, Complex, u32, u32) -> Complex,
    Rs: Fn(u32) -> u32,
    Dl: Fn(Deltas, u32) -> DeltaTerms,
>(
    wave_vector: &Wv,
    density: &Dn,
    evolve: &Ev,
    butterfly: &Bf,
    rescale: &Rs,
    deltas: &Dl,
    consts: SimConstants,
    pass: Pass,
    before: Simulation,
    after: Simulation,
) -> bool {
    let logsize = before.grid.spec_logsize() as nat;
    let noise = before.simdata.gaussian_tex@;
    &&& after.simdata.gaussian_tex@ == noise
    &&& forall|c: u32|
        c < CASCADES ==> if pass_cascade(pass) == Some(c) {
            cascade_pass_rel(
                wave_vector,
                density,
                evolve,
                butterfly,
                rescale,
                deltas,
                consts.spec_cascade(c),
                logsize,
                noise,
                pass,
                before.spec_cascade(c),
                before.fft.scratch(),
                #[trigger] after.spec_cascade(c),
                after.fft.scratch(),
            )
        } else {
            after.spec_cascade(c) == before.spec_cascade(c)
        }
    &&& pass_cascade(pass) is None ==> after.fft.scratch() == before.fft.scratch()
}

/// Runs a pass that works on one cascade on that cascade.
fn run_cascade_pass<
    Wv: Fn(u32, i32, i32) -> WaveVector,
    Dn: Fn(u32, WaveVector, Complex) -> Amplitude,
    Ev: Fn(Texel, Texel) -> Evolved,
    Bf: Fn(Complex, Complex, u32, u32) -> Complex,
    Rs: Fn(u32) -> u32,
    Dl: Fn(Deltas, u32) -> DeltaTerms,
>(
    grid: &Grid,
    simdata: &SimData,
    fft: &mut FourierTransform,
    cascade: &mut Cascade,
    pass: Pass,
    band: &CascadeConstants,
    wave_vector: &Wv,
    density: &Dn,
    evolve: &Ev,
    butterfly: &Bf,
    rescale: &Rs,
    deltas: &Dl,
)
    requires
        grid.wf(),
        simdata.fits(*grid),
        old(fft).fits(grid.spec_size()),
        old(cascade).fits(*grid),
        pass_fits(*grid, pass),
        pass_cascade(pass) is Some,
        wave_vector_total(wave_vector),
        density_total(density),
        evolve_total(evolve),
        kernel_total(butterfly),
        rescale_total(rescale),
        deltas_total(deltas),
    ensures
        final(fft).fits(grid.spec_size()),
        final(cascade).fits(*grid),
        cascade_pass_rel(
            wave_vector,
            density,
            evolve,
            butterfly,
            rescale,
            deltas,
            *band,
            grid.spec_logsize() as nat,
            simdata.gaussian_tex@,
            pass,
            *old(cascade),
            old(fft).scratch(),
            *final(cascade),
            final(fft).scratch(),
        ),
{
    match pass {
        Pass::InitialSpectra { cascade: _ } => {
            initial_spectra(
                grid,
                band,
                &simdata.gaussian_tex,
                &mut cascade.wave_tex,
                &mut cascade.initial_spectrum_tex,
                wave_vector,
                density,
            );
        },
        Pass::PackConjugates { cascade: _ } => {
            pack_conjugates(&mut cascade.initial_spectrum_tex);
        },
        Pass::EvolveSpectra { cascade: _ } => {
            cascade.evolve_spectra(grid, evolve);
        },
        Pass::HStep { cascade: _, field, data } => {
            match field {
                Field::HDisplacement => fft.step(
                    false,
                    &data,
                    &simdata.butterfly,
                    &mut cascade.h_displacement,
                    butterfly,
                ),
                Field::VDisplacement => fft.step(
                    false,
                    &data,
                    &simdata.butterfly,
                    &mut cascade.v_displacement,
                    butterfly,
                ),
                Field::HSlope => fft.step(
                    false,
                    &data,
                    &simdata.butterfly,
                    &mut cascade.h_slope,
                    butterfly,
                ),
                Field::Jacobian => fft.step(
                    false,
                    &data,
                    &simdata.butterfly,
                    &mut cascade.jacobian,
                    butterfly,
                ),
            }
        },
        Pass::VStep { cascade: _, field, data } => {
            match field {
                Field::HDisplacement => fft.step(
                    true,
                    &data,
                    &simdata.butterfly,
                    &mut cascade.h_displacement,
                    butterfly,
                ),
                Field::VDisplacement => fft.step(
                    true,
                    &data,
                    &simdata.butterfly,
                    &mut cascade.v_displacement,
                    butterfly,
                ),
                Field::HSlope => fft.step(
                    true,
                    &data,
                    &simdata.butterfly,
                    &mut cascade.h_slope,
                    butterfly,
                ),
                Field::Jacobian => fft.step(
                    true,
                    &data,
                    &simdata.butterfly,
                    &mut cascade.jacobian,
                    butterfly,
                ),
            }
        },
        Pass::Permute { cascade: _, field } => {
            match field {
                Field::HDisplacement => permute(&mut cascade.h_displacement, rescale),
                Field::VDisplacement => permute(&mut cascade.v_displacement, rescale),
                Field::HSlope => permute(&mut cascade.h_slope, rescale),
                Field::Jacobian => permute(&mut cascade.jacobian, rescale),
            }
        },
        Pass::ProcessDeltas { cascade: _ } => {
            cascade.process_deltas(grid, deltas);
        },
        _ => {},
    }
}

impl Simulation {
    /// Runs one pass.
    ///
    /// Filling the butterfly table computes the table anew. Rebuilding the
    /// mesh changes nothing here: the mesh is not part of the simulation.
    pub fn run_pass<
        Wv: Fn(u32, i32, i32) -> WaveVector,
        Dn: Fn(u32, WaveVector, Complex) -> Amplitude,
        Ev: Fn(Texel, Texel) -> Evolved,
        Bf: Fn(Complex, Complex, u32, u32) -> Complex,
        Rs: Fn(u32) -> u32,
        Dl: Fn(Deltas, u32) -> DeltaTerms,
    >(
        &mut self,
        pass: Pass,
        consts: &SimConstants,
        wave_vector: &Wv,
        density: &Dn,
        evolve: &Ev,
        butterfly: &Bf,
        rescale: &Rs,
        deltas: &Dl,
    )
        requires
            old(self).wf(),
            pass_fits(old(self).grid, pass),
            wave_vector_total(wave_vector),
            density_total(density),
            evolve_total(evolve),
            kernel_total(butterfly),
            rescale_total(rescale),
            deltas_total(deltas),
        ensures
            final(self).wf(),
            final(self).grid == old(self).grid,
            final(self).consts_changed == old(self).consts_changed,
            pass_rel(
                wave_vector,
                density,
                evolve,
                butterfly,
                rescale,
                deltas,
                *consts,
                pass,
                *old(self),
                *final(self),
            ),
    {
        let target = match pass {
            Pass::PrecomputeButterfly => None,
            Pass::RebuildMesh => None,
            Pass::InitialSpectra { cascade } => Some(cascade),
            Pass::PackConjugates { cascade } => Some(cascade),
            Pass::EvolveSpectra { cascade } => Some(cascade),
            Pass::HStep { cascade, field: _, data: _ } => Some(cascade),
            Pass::VStep { cascade, field: _, data: _ } => Some(cascade),
            Pass::Permute { cascade, field: _ } => Some(cascade),
            Pass::ProcessDeltas { cascade } => Some(cascade),
        };
        match target {
            None => {
                match pass {
                    Pass::PrecomputeButterfly => {
                        self.simdata.butterfly = ButterflyTable::new(self.grid);
                    },
                    _ => {},
                }
            },
            Some(c) => {
                let band = consts.cascade(c);
                if c == 0 {
                    run_cascade_pass(
                        &self.grid,
                        &self.simdata,
                        &mut self.fft,
                        &mut self.cascade0,
                        pass,
                        &band,
                        wave_vector,
                        density,
                        evolve,
                        butterfly,
                        rescale,
                        deltas,
                    );
                } else if c == 1 {
                    run_cascade_pass(
                        &self.grid,
                        &self.simdata,
                        &mut self.fft,
                        &mut self.cascade1,
                        pass,
                        &band,
                        wave_vector,
                        density,
                        evolve,
                        butterfly,
                        rescale,
                        deltas,
                    );
                } else {
                    run_cascade_pass(
                        &self.grid,
                        &self.simdata,
                        &mut self.fft,
                        &mut self.cascade2,
                        pass,
                        &band,
                        wave_vector,
                        density,
                        evolve,
                        butterfly,
                        rescale,
                        deltas,
                    );
                }
            },
        }
    }
}

/// Number of passes of one frame for one cascade.
pub open spec fn cascade_len(logsize: nat) -> nat {
    2 + 4 * (2 * logsize + 1)
}

/// The list of one cascade has one evolution, four transforms and one delta
/// processing.
pub proof fn lemma_cascade_len(logsize: nat, cascade: u32)
    ensures
        cascade_passes(logsize, cascade).len() == cascade_len(logsize),
{
}

/// Where the passes of one cascade stand in its list: the evolution first,
/// the transforms of the four fields one after the other, delta processing
/// last.
pub proof fn lemma_cascade_pass_at(logsize: nat, cascade: u32)
    ensures
        cascade_passes(logsize, cascade).len() == cascade_len(logsize),
        cascade_passes(logsize, cascade)[0] == (Pass::EvolveSpectra { cascade }),
        forall|s: int|
            0 <= s <= 2 * logsize ==> cascade_passes(logsize, cascade)[1 + s] == #[trigger] ifft2d_pass(
                logsize,
                cascade,
                Field::HDisplacement,
                s,
            ),
        forall|s: int|
            0 <= s <= 2 * logsize ==> cascade_passes(logsize, cascade)[1 + (2 * logsize + 1) + s]
                == #[trigger] ifft2d_pass(logsize, cascade, Field::VDisplacement, s),
        forall|s: int|
            0 <= s <= 2 * logsize ==> cascade_passes(logsize, cascade)[1 + 2 * (2 * logsize + 1)
                + s] == #[trigger] ifft2d_pass(logsize, cascade, Field::HSlope, s),
        forall|s: int|
            0 <= s <= 2 * logsize ==> cascade_passes(logsize, cascade)[1 + 3 * (2 * logsize + 1)
                + s] == #[trigger] ifft2d_pass(logsize, cascade, Field::Jacobian, s),
        cascade_passes(logsize, cascade)[cascade_len(logsize) - 1] == (Pass::ProcessDeltas {
            cascade,
        }),
{
    let n = (2 * logsize + 1) as int;
    let t0 = ifft2d_passes(logsize, cascade, Field::HDisplacement);
    let t1 = ifft2d_passes(logsize, cascade, Field::VDisplacement);
    let t2 = ifft2d_passes(logsize, cascade, Field::HSlope);
    let t3 = ifft2d_passes(logsize, cascade, Field::Jacobian);
    let s0 = seq![Pass::EvolveSpectra { cascade }];
    let s1 = s0 + t0;
    let s2 = s1 + t1;
    let s3 = s2 + t2;
    let s4 = s3 + t3;
    let list = s4 + seq![Pass::ProcessDeltas { cascade }];
    assert(list == cascade_passes(logsize, cascade));
    assert(list[0] == s4[0] && s4[0] == s3[0] && s3[0] == s2[0] && s2[0] == s1[0] && s1[0]
        == s0[0]);
    assert forall|s: int| 0 <= s <= 2 * logsize implies list[1 + s] == #[trigger] ifft2d_pass(
        logsize,
        cascade,
        Field::HDisplacement,
        s,
    ) by {
        assert(s1[1 + s] == t0[s]);
        assert(s2[1 + s] == s1[1 + s]);
        assert(s3[1 + s] == s2[1 + s]);
        assert(s4[1 + s] == s3[1 + s]);
    }
    assert forall|s: int| 0 <= s <= 2 * logsize implies list[1 + n + s] == #[trigger] ifft2d_pass(
        logsize,
        cascade,
        Field::VDisplacement,
        s,
    ) by {
        assert(s2[s1.len() + s] == t1[s]);
        assert(s3[1 + n + s] == s2[1 + n + s]);
        assert(s4[1 + n + s] == s3[1 + n + s]);
    }
    assert forall|s: int| 0 <= s <= 2 * logsize implies list[1 + 2 * n + s]
        == #[trigger] ifft2d_pass(logsize, cascade, Field::HSlope, s) by {
        assert(s3[s2.len() + s] == t2[s]);
        assert(s4[1 + 2 * n + s] == s3[1 + 2 * n + s]);
    }
    assert forall|s: int| 0 <= s <= 2 * logsize implies list[1 + 3 * n + s]
        == #[trigger] ifft2d_pass(logsize, cascade, Field::Jacobian, s) by {
        assert(s4[s3.len() + s] == t3[s]);
    }
    assert(list[s4.len() as int] == (Pass::ProcessDeltas { cascade }));
}

/// What stands before the passes of the cascades in the list of a frame.
pub proof fn lemma_setup_pass_at(first_frame: bool, consts_changed: bool)
    ensures
        ({
            let setup = setup_passes(first_frame, consts_changed);
            let first: int = if first_frame {
                1
            } else {
                0
            };
            &&& setup.len() == first + if consts_changed {
                7int
            } else {
                0int
            }
            &&& first_frame ==> setup[0] == Pass::PrecomputeButterfly
            &&& consts_changed ==> {
                &&& setup[first] == (Pass::InitialSpectra { cascade: 0 })
                &&& setup[first + 1] == (Pass::PackConjugates { cascade: 0 })
                &&& setup[first + 2] == (Pass::InitialSpectra { cascade: 1 })
                &&& setup[first + 3] == (Pass::PackConjugates { cascade: 1 })
                &&& setup[first + 4] == (Pass::InitialSpectra { cascade: 2 })
                &&& setup[first + 5] == (Pass::PackConjugates { cascade: 2 })
                &&& setup[first + 6] == Pass::RebuildMesh
            }
        }),
{
    let rebuild = initial_passes(0) + initial_passes(1) + initial_passes(2) + seq![
        Pass::RebuildMesh,
    ];
    assert(rebuild.len() == 7);
    assert(rebuild[0] == (Pass::InitialSpectra { cascade: 0 }));
    assert(rebuild[1] == (Pass::PackConjugates { cascade: 0 }));
    assert(rebuild[2] == (Pass::InitialSpectra { cascade: 1 }));
    assert(rebuild[3] == (Pass::PackConjugates { cascade: 1 }));
    assert(rebuild[4] == (Pass::InitialSpectra { cascade: 2 }));
    assert(rebuild[5] == (Pass::PackConjugates { cascade: 2 }));
    assert(rebuild[6] == Pass::RebuildMesh);
}

/// Where the passes of the three cascades stand in the list of a frame, and
/// what stands before them.
pub proof fn lemma_frame_pass_at(first_frame: bool, consts_changed: bool, logsize: nat)
    ensures
        ({
            let list = frame_passes(first_frame, consts_changed, logsize);
            let setup = setup_passes(first_frame, consts_changed);
            &&& list.len() == setup.len() + 3 * cascade_len(logsize)
            &&& forall|j: int| 0 <= j < setup.len() ==> list[j] == #[trigger] setup[j]
            &&& forall|j: int|
                0 <= j < cascade_len(logsize) ==> list[setup.len() + j] == #[trigger] cascade_passes(
                    logsize,
                    0,
                )[j]
            &&& forall|j: int|
                0 <= j < cascade_len(logsize) ==> list[setup.len() + cascade_len(logsize) + j]
                    == #[trigger] cascade_passes(logsize, 1)[j]
            &&& forall|j: int|
                0 <= j < cascade_len(logsize) ==> list[setup.len() + 2 * cascade_len(logsize) + j]
                    == #[trigger] cascade_passes(logsize, 2)[j]
        }),
{
    let setup = setup_passes(first_frame, consts_changed);
    let c0 = cascade_passes(logsize, 0);
    let c1 = cascade_passes(logsize, 1);
    let c2 = cascade_passes(logsize, 2);
    let n = cascade_len(logsize) as int;
    lemma_cascade_len(logsize, 0);
    lemma_cascade_len(logsize, 1);
    lemma_cascade_len(logsize, 2);
    let s1 = setup + c0;
    let s2 = s1 + c1;
    let list = s2 + c2;
    assert(list == frame_passes(first_frame, consts_changed, logsize));
    assert forall|j: int| 0 <= j < setup.len() implies list[j] == #[trigger] setup[j] by {
        assert(s1[j] == setup[j]);
        assert(s2[j] == s1[j]);
    }
    assert forall|j: int| 0 <= j < n implies list[setup.len() + j] == #[trigger] c0[j] by {
        assert(s1[setup.len() + j] == c0[j]);
        assert(s2[setup.len() + j] == s1[setup.len() + j]);
    }
    assert forall|j: int| 0 <= j < n implies list[setup.len() + n + j] == #[trigger] c1[j] by {
        assert(s2[s1.len() + j] == c1[j]);
    }
    assert forall|j: int| 0 <= j < n implies list[setup.len() + 2 * n + j] == #[trigger] c2[j] by {
        assert(list[s2.len() + j] == c2[j]);
    }
}

/// Whether `after` can be what the passes of one transform leave of the
/// simulation `before`: the field is transformed, and every other texture of
/// every cascade is kept.
pub open spec fn transform_rel<Bf: Fn(Complex, Complex, u32, u32) -> Complex, Rs: Fn(u32) -> u32>(
    butterfly: &Bf,
    rescale: &Rs,
    cascade: u32,
    field: Field,
    before: Simulation,
    after: Simulation,
) -> bool {
    let b = before.spec_cascade(cascade);
    let a = after.spec_cascade(cascade);
    &&& ifft2d_rel(
        butterfly,
        rescale,
        before.grid.spec_logsize() as nat,
        field_view(b, field),
        field_view(a, field),
    )
    &&& same_fields_but(b, a, field)
    &&& same_inputs(b, a)
    &&& same_maps(b, a)
    &&& forall|c: u32|
        c < CASCADES && c != cascade ==> #[trigger] after.spec_cascade(c) == before.spec_cascade(c)
    &&& after.simdata.gaussian_tex@ == before.simdata.gaussian_tex@
}

impl Simulation {
    /// Runs the passes of the transform of one field, which stand in `passes`
    /// from position `base` on.
    fn run_transform<
        Wv: Fn(u32, i32, i32) -> WaveVector,
        Dn: Fn(u32, WaveVector, Complex) -> Amplitude,
        Ev: Fn(Texel, Texel) -> Evolved,
        Bf: Fn(Complex, Complex, u32, u32) -> Complex,
        Rs: Fn(u32) -> u32,
        Dl: Fn(Deltas, u32) -> DeltaTerms,
    >(
        &mut self,
        passes: &Vec<Pass>,
        base: usize,
        cascade: u32,
        field: Field,
        consts: &SimConstants,
        wave_vector: &Wv,
        density: &Dn,
        evolve: &Ev,
        butterfly: &Bf,
        rescale: &Rs,
        deltas: &Dl,
    )
        requires
            old(self).wf(),
            cascade < CASCADES,
            base + 2 * old(self).grid.spec_logsize() + 1 <= passes@.len(),
            forall|s: int|
                0 <= s <= 2 * old(self).grid.spec_logsize() ==> passes@[base + s]
                    == #[trigger] ifft2d_pass(
                    old(self).grid.spec_logsize() as nat,
                    cascade,
                    field,
                    s,
                ),
            wave_vector_total(wave_vector),
            density_total(density),
            evolve_total(evolve),
            kernel_total(butterfly),
            rescale_total(rescale),
            deltas_total(deltas),
        ensures
            final(self).wf(),
            final(self).grid == old(self).grid,
            final(self).consts_changed == old(self).consts_changed,
            transform_rel(butterfly, rescale, cascade, field, *old(self), *final(self)),
    {
        let logsize = self.grid.logsize();
        let ghost start = *self;
        let ghost l = logsize as nat;
        let ghost src = field_view(start.spec_cascade(cascade), field);
        proof {
            crate::grid::lemma_grid_bounds(self.grid);
        }
        let len = passes.len();
        let mut i: u32 = 0;
        while i < 2 * logsize
            invariant
                len == passes@.len(),
                self.wf(),
                self.grid == start.grid,
                self.consts_changed == start.consts_changed,
                self.simdata.gaussian_tex@ == start.simdata.gaussian_tex@,
                logsize == start.grid.spec_logsize(),
                logsize <= 15,
                l == logsize,
                cascade < CASCADES,
                i <= 2 * logsize,
                base + 2 * logsize + 1 <= passes@.len(),
                forall|s: int|
                    0 <= s <= 2 * logsize ==> passes@[base + s] == #[trigger] ifft2d_pass(
                        l,
                        cascade,
                        field,
                        s,
                    ),
                src == field_view(start.spec_cascade(cascade), field),
                same_fields_but(start.spec_cascade(cascade), self.spec_cascade(cascade), field),
                same_inputs(start.spec_cascade(cascade), self.spec_cascade(cascade)),
                same_maps(start.spec_cascade(cascade), self.spec_cascade(cascade)),
                forall|c: u32|
                    c < CASCADES && c != cascade ==> #[trigger] self.spec_cascade(c)
                        == start.spec_cascade(c),
                stages_rel(
                    butterfly,
                    l,
                    i as nat,
                    src,
                    if i % 2 == 0 {
                        field_view(self.spec_cascade(cascade), field)
                    } else {
                        self.fft.scratch()
                    },
                ),
            wave_vector_total(wave_vector),
            density_total(density),
            evolve_total(evolve),
            kernel_total(butterfly),
            rescale_total(rescale),
            deltas_total(deltas),
            decreases 2 * logsize - i,
        {
            let ghost before = *self;
            let ghost mid = if i % 2 == 0 {
                field_view(self.spec_cascade(cascade), field)
            } else {
                self.fft.scratch()
            };
            let pass = passes[base + i as usize];
            proof {
                assert(pass == ifft2d_pass(l, cascade, field, i as int));
            }
            self.run_pass(pass, consts, wave_vector, density, evolve, butterfly, rescale, deltas);
            proof {
                let dst = if (i + 1) % 2 == 0 {
                    field_view(self.spec_cascade(cascade), field)
                } else {
                    self.fft.scratch()
                };
                let data = FFTData {
                    stage: if i < logsize {
                        i
                    } else {
                        (i - logsize) as u32
                    },
                    pingpong: i % 2,
                };
                if i < logsize {
                    assert(pass == (Pass::HStep { cascade, field, data }));
                } else {
                    assert(pass == (Pass::VStep { cascade, field, data }));
                }
                assert(pass_cascade(pass) == Some(cascade));
                assert(cascade_pass_rel(
                    wave_vector,
                    density,
                    evolve,
                    butterfly,
                    rescale,
                    deltas,
                    consts.spec_cascade(cascade),
                    l,
                    before.simdata.gaussian_tex@,
                    pass,
                    before.spec_cascade(cascade),
                    before.fft.scratch(),
                    self.spec_cascade(cascade),
                    self.fft.scratch(),
                ));
                assert(pingpong_step_rel(
                    butterfly,
                    l,
                    i >= logsize,
                    data,
                    field_view(before.spec_cascade(cascade), field),
                    before.fft.scratch(),
                    field_view(self.spec_cascade(cascade), field),
                    self.fft.scratch(),
                ));
                assert(nth_step_rel(butterfly, l, i as nat, mid, dst));
                lemma_stages_extend(butterfly, l, i as nat, src, mid, dst);
                assert forall|c: u32| c < CASCADES && c != cascade implies #[trigger] self.spec_cascade(
                    c,
                ) == start.spec_cascade(c) by {
                    assert(self.spec_cascade(c) == before.spec_cascade(c));
                }
            }
            i = i + 1;
        }
        let ghost spatial = field_view(self.spec_cascade(cascade), field);
        let ghost before = *self;
        let pass = passes[base + (2 * logsize) as usize];
        proof {
            assert(pass == ifft2d_pass(l, cascade, field, 2 * logsize as int));
        }
        self.run_pass(pass, consts, wave_vector, density, evolve, butterfly, rescale, deltas);
        proof {
            assert(pass_cascade(pass) == Some(cascade));
            assert(stages_rel(butterfly, l, 2 * l, src, spatial));
            assert(permute_rel(
                rescale,
                pow2(l),
                spatial,
                field_view(self.spec_cascade(cascade), field),
            ));
            assert forall|c: u32| c < CASCADES && c != cascade implies #[trigger] self.spec_cascade(
                c,
            ) == start.spec_cascade(c) by {
                assert(self.spec_cascade(c) == before.spec_cascade(c));
            }
        }
    }
}

impl Simulation {
    /// Runs the passes of one frame for one cascade, which stand in `passes`
    /// from position `base` on.
    fn run_cascade_passes<
        Wv: Fn(u32, i32, i32) -> WaveVector,
        Dn: Fn(u32, WaveVector, Complex) -> Amplitude,
        Ev: Fn(Texel, Texel) -> Evolved,
        Bf: Fn(Complex, Complex, u32, u32) -> Complex,
        Rs: Fn(u32) -> u32,
        Dl: Fn(Deltas, u32) -> DeltaTerms,
    >(
        &mut self,
        passes: &Vec<Pass>,
        base: usize,
        cascade: u32,
        consts: &SimConstants,
        wave_vector: &Wv,
        density: &Dn,
        evolve: &Ev,
        butterfly: &Bf,
        rescale: &Rs,
        deltas: &Dl,
    )
        requires
            old(self).wf(),
            cascade < CASCADES,
            base + cascade_len(old(self).grid.spec_logsize() as nat) <= passes@.len(),
            forall|j: int|
                0 <= j < cascade_len(old(self).grid.spec_logsize() as nat) ==> passes@[base + j]
                    == #[trigger] cascade_passes(old(self).grid.spec_logsize() as nat, cascade)[j],
            wave_vector_total(wave_vector),
            density_total(density),
            evolve_total(evolve),
            kernel_total(butterfly),
            rescale_total(rescale),
            deltas_total(deltas),
        ensures
            final(self).wf(),
            final(self).grid == old(self).grid,
            final(self).consts_changed == old(self).consts_changed,
            final(self).simdata.gaussian_tex@ == old(self).simdata.gaussian_tex@,
            cascade_step_rel(
                evolve,
                butterfly,
                rescale,
                deltas,
                old(self).grid.spec_logsize() as nat,
                old(self).spec_cascade(cascade),
                final(self).spec_cascade(cascade),
            ),
            forall|c: u32|
                c < CASCADES && c != cascade ==> #[trigger] final(self).spec_cascade(c) == old(
                    self,
                ).spec_cascade(c),
    {
        let logsize = self.grid.logsize();
        let ghost start = *self;
        let ghost l = logsize as nat;
        let ghost list = cascade_passes(l, cascade);
        let len = passes.len();
        let stride: usize = 2 * (logsize as usize) + 1;
        proof {
            crate::grid::lemma_grid_bounds(self.grid);
            lemma_cascade_pass_at(l, cascade);
            assert(start.grid.wf());
        }
        let pass = passes[base];
        proof {
            assert(pass == list[0]);
        }
        self.run_pass(pass, consts, wave_vector, density, evolve, butterfly, rescale, deltas);
        let ghost evolved = *self;
        proof {
            assert(pass_cascade(pass) == Some(cascade));
            assert(cascade_pass_rel(
                wave_vector,
                density,
                evolve,
                butterfly,
                rescale,
                deltas,
                consts.spec_cascade(cascade),
                l,
                start.simdata.gaussian_tex@,
                pass,
                start.spec_cascade(cascade),
                start.fft.scratch(),
                self.spec_cascade(cascade),
                self.fft.scratch(),
            ));
            assert forall|s: int| 0 <= s <= 2 * logsize implies passes@[base + 1 + s]
                == #[trigger] ifft2d_pass(l, cascade, Field::HDisplacement, s) by {
                assert(passes@[base + (1 + s)] == list[1 + s]);
            }
        }
        self.run_transform(
            passes,
            base + 1,
            cascade,
            Field::HDisplacement,
            consts,
            wave_vector,
            density,
            evolve,
            butterfly,
            rescale,
            deltas,
        );
        proof {
            assert forall|s: int| 0 <= s <= 2 * logsize implies passes@[base + 1 + stride + s]
                == #[trigger] ifft2d_pass(l, cascade, Field::VDisplacement, s) by {
                assert(passes@[base + (1 + (2 * l + 1) + s)] == list[1 + (2 * l + 1) + s]);
            }
        }
        self.run_transform(
            passes,
            base + 1 + stride,
            cascade,
            Field::VDisplacement,
            consts,
            wave_vector,
            density,
            evolve,
            butterfly,
            rescale,
            deltas,
        );
        proof {
            assert forall|s: int| 0 <= s <= 2 * logsize implies passes@[base + 1 + 2 * stride + s]
                == #[trigger] ifft2d_pass(l, cascade, Field::HSlope, s) by {
                assert(passes@[base + (1 + 2 * (2 * l + 1) + s)] == list[1 + 2 * (2 * l + 1) + s]);
            }
        }
        self.run_transform(
            passes,
            base + 1 + 2 * stride,
            cascade,
            Field::HSlope,
            consts,
            wave_vector,
            density,
            evolve,
            butterfly,
            rescale,
            deltas,
        );
        proof {
            assert forall|s: int| 0 <= s <= 2 * logsize implies passes@[base + 1 + 3 * stride + s]
                == #[trigger] ifft2d_pass(l, cascade, Field::Jacobian, s) by {
                assert(passes@[base + (1 + 3 * (2 * l + 1) + s)] == list[1 + 3 * (2 * l + 1) + s]);
            }
        }
        self.run_transform(
            passes,
            base + 1 + 3 * stride,
            cascade,
            Field::Jacobian,
            consts,
            wave_vector,
            density,
            evolve,
            butterfly,
            rescale,
            deltas,
        );
        let ghost transformed = *self;
        let pass = passes[base + 1 + 4 * stride];
        proof {
            assert(passes@[base + (cascade_len(l) - 1)] == list[cascade_len(l) - 1]);
            assert(pass == (Pass::ProcessDeltas { cascade }));
        }
        self.run_pass(pass, consts, wave_vector, density, evolve, butterfly, rescale, deltas);
        proof {
            assert(pass_cascade(pass) == Some(cascade));
            assert(cascade_pass_rel(
                wave_vector,
                density,
                evolve,
                butterfly,
                rescale,
                deltas,
                consts.spec_cascade(cascade),
                l,
                transformed.simdata.gaussian_tex@,
                pass,
                transformed.spec_cascade(cascade),
                transformed.fft.scratch(),
                self.spec_cascade(cascade),
                self.fft.scratch(),
            ));
            let e = evolved.spec_cascade(cascade);
            assert(evolve_rel(
                evolve,
                pow2(l) * pow2(l),
                start.spec_cascade(cascade).wave_tex@,
                start.spec_cascade(cascade).initial_spectrum_tex@,
                e.h_displacement@,
                e.v_displacement@,
                e.h_slope@,
                e.jacobian@,
            ));
        }
    }

    /// Runs one frame: draws up the list of its passes and runs every pass
    /// of the list, in the order of the list.
    ///
    /// The spectrum of every cascade is rebuilt if the parameters changed,
    /// which needs a grid of more than one texel; then every cascade goes
    /// through time evolution, the four transforms and delta processing.
    pub fn frame<
        Wv: Fn(u32, i32, i32) -> WaveVector,
        Dn: Fn(u32, WaveVector, Complex) -> Amplitude,
        Ev: Fn(Texel, Texel) -> Evolved,
        Bf: Fn(Complex, Complex, u32, u32) -> Complex,
        Rs: Fn(u32) -> u32,
        Dl: Fn(Deltas, u32) -> DeltaTerms,
    >(
        &mut self,
        first_frame: bool,
        consts: &SimConstants,
        wave_vector: &Wv,
        density: &Dn,
        evolve: &Ev,
        butterfly: &Bf,
        rescale: &Rs,
        deltas: &Dl,
    )
        requires
            old(self).wf(),
            old(self).consts_changed ==> old(self).grid.spec_size() >= 2,
            wave_vector_total(wave_vector),
            density_total(density),
            evolve_total(evolve),
            kernel_total(butterfly),
            rescale_total(rescale),
            deltas_total(deltas),
        ensures
            final(self).wf(),
            final(self).grid == old(self).grid,
            final(self).simdata.gaussian_tex@ == old(self).simdata.gaussian_tex@,
            final(self).consts_changed == old(self).consts_changed,
            forall|pc: u32|
                pc < CASCADES ==> #[trigger] frame_cascade_rel(
                    wave_vector,
                    density,
                    evolve,
                    butterfly,
                    rescale,
                    deltas,
                    consts.spec_cascade(pc),
                    old(self).consts_changed,
                    old(self).grid.spec_logsize() as nat,
                    old(self).simdata.gaussian_tex@,
                    old(self).spec_cascade(pc),
                    final(self).spec_cascade(pc),
                ),
    {
        let logsize = self.grid.logsize();
        let rebuild = self.consts_changed;
        let ghost start = *self;
        let ghost l = logsize as nat;
        let passes = plan_frame(&self.grid, first_frame, rebuild);
        let len = passes.len();
        let per_cascade: usize = 2 + 4 * (2 * (logsize as usize) + 1);
        proof {
            crate::grid::lemma_grid_bounds(self.grid);
            lemma_setup_pass_at(first_frame, rebuild);
            lemma_frame_pass_at(first_frame, rebuild, l);
        }
        let ghost setup = setup_passes(first_frame, rebuild);
        let mut next: usize = 0;
        if first_frame {
            let pass = passes[next];
            proof {
                assert(pass == setup[0]);
            }
            self.run_pass(pass, consts, wave_vector, density, evolve, butterfly, rescale, deltas);
            next = next + 1;
        }
        proof {
            assert(self.spec_cascade(0) == start.spec_cascade(0));
            assert(self.spec_cascade(1) == start.spec_cascade(1));
            assert(self.spec_cascade(2) == start.spec_cascade(2));
        }
        if rebuild {
            let mut pc: u32 = 0;
            while pc < 3
                invariant
                    self.wf(),
                    self.grid == start.grid,
                    self.grid.spec_size() >= 2,
                    self.consts_changed == start.consts_changed,
                    self.simdata.gaussian_tex@ == start.simdata.gaussian_tex@,
                    rebuild,
                    l == start.grid.spec_logsize(),
                    pc <= 3,
                    len == passes@.len(),
                    passes@ == frame_passes(first_frame, rebuild, l),
                    setup == setup_passes(first_frame, rebuild),
                    setup.len() <= passes@.len(),
                    setup.len() == (if first_frame {
                        8int
                    } else {
                        7int
                    }),
                    next == (if first_frame {
                        1int
                    } else {
                        0int
                    }) + 2 * pc,
                    forall|j: int| 0 <= j < setup.len() ==> passes@[j] == #[trigger] setup[j],
                    forall|c: u32|
                        #![trigger self.spec_cascade(c)]
                        c < CASCADES ==> if c < pc {
                            initial_cascade_rel(
                                wave_vector,
                                density,
                                consts.spec_cascade(c),
                                pow2(l),
                                start.simdata.gaussian_tex@,
                                start.spec_cascade(c),
                                self.spec_cascade(c),
                            )
                        } else {
                            self.spec_cascade(c) == start.spec_cascade(c)
                        },
            wave_vector_total(wave_vector),
            density_total(density),
            evolve_total(evolve),
            kernel_total(butterfly),
            rescale_total(rescale),
            deltas_total(deltas),
                decreases 3 - pc,
            {
                let ghost before = *self;
                let synthesis = passes[next];
                proof {
                    lemma_setup_pass_at(first_frame, rebuild);
                    assert(synthesis == setup[next as int]);
                    assert(synthesis == (Pass::InitialSpectra { cascade: pc }));
                }
                self.run_pass(synthesis, consts, wave_vector, density, evolve, butterfly, rescale, deltas);
                let ghost raw = *self;
                let packing = passes[next + 1];
                proof {
                    assert(packing == setup[next + 1]);
                    assert(packing == (Pass::PackConjugates { cascade: pc }));
                    assert(pass_cascade(synthesis) == Some(pc));
                    assert(cascade_pass_rel(
                        wave_vector,
                        density,
                        evolve,
                        butterfly,
                        rescale,
                        deltas,
                        consts.spec_cascade(pc),
                        l,
                        before.simdata.gaussian_tex@,
                        synthesis,
                        before.spec_cascade(pc),
                        before.fft.scratch(),
                        raw.spec_cascade(pc),
                        raw.fft.scratch(),
                    ));
                }
                self.run_pass(packing, consts, wave_vector, density, evolve, butterfly, rescale, deltas);
                proof {
                    assert(pass_cascade(packing) == Some(pc));
                    assert(cascade_pass_rel(
                        wave_vector,
                        density,
                        evolve,
                        butterfly,
                        rescale,
                        deltas,
                        consts.spec_cascade(pc),
                        l,
                        raw.simdata.gaussian_tex@,
                        packing,
                        raw.spec_cascade(pc),
                        raw.fft.scratch(),
                        self.spec_cascade(pc),
                        self.fft.scratch(),
                    ));
                    assert(initial_rel(
                        wave_vector,
                        density,
                        consts.spec_cascade(pc),
                        pow2(l),
                        start.simdata.gaussian_tex@,
                        self.spec_cascade(pc).wave_tex@,
                        raw.spec_cascade(pc).initial_spectrum_tex@,
                    ));
                    assert forall|c: u32| #![trigger self.spec_cascade(c)] c < CASCADES implies if c
                        < pc + 1 {
                        initial_cascade_rel(
                            wave_vector,
                            density,
                            consts.spec_cascade(c),
                            pow2(l),
                            start.simdata.gaussian_tex@,
                            start.spec_cascade(c),
                            self.spec_cascade(c),
                        )
                    } else {
                        self.spec_cascade(c) == start.spec_cascade(c)
                    } by {
                        if c != pc {
                            assert(raw.spec_cascade(c) == before.spec_cascade(c));
                            assert(self.spec_cascade(c) == raw.spec_cascade(c));
                        }
                    }
                }
                next = next + 2;
                pc = pc + 1;
            }
            let mesh = passes[next];
            proof {
                lemma_setup_pass_at(first_frame, rebuild);
                assert(mesh == setup[next as int]);
                assert(mesh == Pass::RebuildMesh);
            }
            let ghost before = *self;
            self.run_pass(mesh, consts, wave_vector, density, evolve, butterfly, rescale, deltas);
            proof {
                assert(self.spec_cascade(0) == before.spec_cascade(0));
                assert(self.spec_cascade(1) == before.spec_cascade(1));
                assert(self.spec_cascade(2) == before.spec_cascade(2));
            }
            next = next + 1;
        }
        let ghost mid = *self;
        proof {
            assert(next == setup.len());
            lemma_cascade_len(l, 0);
        }
        self.run_cascade_passes(
            &passes,
            next,
            0,
            consts,
            wave_vector,
            density,
            evolve,
            butterfly,
            rescale,
            deltas,
        );
        self.run_cascade_passes(
            &passes,
            next + per_cascade,
            1,
            consts,
            wave_vector,
            density,
            evolve,
            butterfly,
            rescale,
            deltas,
        );
        self.run_cascade_passes(
            &passes,
            next + 2 * per_cascade,
            2,
            consts,
            wave_vector,
            density,
            evolve,
            butterfly,
            rescale,
            deltas,
        );
        proof {
            assert(next + 3 * per_cascade == passes@.len());
            assert forall|pc: u32| pc < CASCADES implies #[trigger] frame_cascade_rel(
                wave_vector,
                density,
                evolve,
                butterfly,
                rescale,
                deltas,
                consts.spec_cascade(pc),
                rebuild,
                l,
                start.simdata.gaussian_tex@,
                start.spec_cascade(pc),
                self.spec_cascade(pc),
            ) by {
                assert(cascade_step_rel(
                    evolve,
                    butterfly,
                    rescale,
                    deltas,
                    l,
                    mid.spec_cascade(pc),
                    self.spec_cascade(pc),
                ));
            }
        }
    }
}

} // verus!
