//! The simulation of three cascades, and what a frame makes of them.
//!
//! Every pass is total over the grid and runs to completion before the next
//! one starts: spectrum synthesis and conjugate packing (only after a change
//! of parameters), then per cascade time evolution, four inverse transforms
//! and delta processing. The frame itself is run pass by pass in `executor`.

use vstd::prelude::*;
use vstd::arithmetic::power2::pow2;
use crate::cascade::{Cascade, DeltaTerms, Deltas, Evolved, deltas_deterministic, deltas_rel,
    deltas_total, evolve_deterministic, evolve_rel, evolve_total, lemma_deltas_determined,
    lemma_evolve_determined};
use crate::fft::{FourierTransform, ifft2d_rel, kernel_deterministic, kernel_total,
    lemma_ifft2d_determined, rescale_deterministic, rescale_total};
use crate::grid::Grid;
use crate::params::{CascadeConstants, SimConstants};
use crate::simdata::{SimData, gaussian_total, noise_rel};
use crate::spectrum::{Amplitude, WaveVector, density_deterministic, density_total, initial_rel,
    initial_spectra, lemma_initial_determined, pack_conjugates, packed,
    wave_vector_deterministic, wave_vector_total};
use crate::texture::{Complex, Texel};

verus! {

/// Number of cascades.
pub const CASCADES: u32 = 3;

/// Whether `after` can be what spectrum synthesis and conjugate packing make
/// of the cascade `before`: the wave texture and the packed spectrum are new,
/// every other texture is kept.
pub open spec fn initial_cascade_rel<
    W: Fn(u32, i32, i32) -> WaveVector,
    D: Fn(u32, WaveVector, Complex) -> Amplitude,
>(
    wave_vector: &W,
    density: &D,
    band: CascadeConstants,
    n: nat,
    noise: Seq<Texel>,
    before: Cascade,
    after: Cascade,
) -> bool {
    &&& exists|raw: Seq<Texel>|
        #[trigger] initial_rel(wave_vector, density, band, n, noise, after.wave_tex@, raw)
            && after.initial_spectrum_tex@ == packed(n, raw)
    &&& after.displacement_map@ == before.displacement_map@
    &&& after.normal_map@ == before.normal_map@
    &&& after.foam_map@ == before.foam_map@
    &&& after.h_displacement@ == before.h_displacement@
    &&& after.v_displacement@ == before.v_displacement@
    &&& after.h_slope@ == before.h_slope@
    &&& after.jacobian@ == before.jacobian@
}

/// Whether `after` can be what one frame's passes make of the cascade
/// `before`: time evolution of the stored spectrum, the inverse transform of
/// each of the four evolved fields, and delta processing of the transformed
/// fields together with the foam that `before` carried.
pub open spec fn cascade_step_rel<
    Ev: Fn(Texel, Texel) -> Evolved,
    Bf: Fn(Complex, Complex, u32, u32) -> Complex,
    Rs: Fn(u32) -> u32,
    Dl: Fn(Deltas, u32) -> DeltaTerms,
>(
    evolve: &Ev,
    butterfly: &Bf,
    rescale: &Rs,
    deltas: &Dl,
    logsize: nat,
    before: Cascade,
    after: Cascade,
) -> bool {
    let texels = pow2(logsize) * pow2(logsize);
    &&& after.wave_tex@ == before.wave_tex@
    &&& after.initial_spectrum_tex@ == before.initial_spectrum_tex@
    &&& exists|hd: Seq<Texel>, vd: Seq<Texel>, hs: Seq<Texel>, jc: Seq<Texel>|
        {
            &&& #[trigger] evolve_rel(
                evolve,
                texels,
                before.wave_tex@,
                before.initial_spectrum_tex@,
                hd,
                vd,
                hs,
                jc,
            )
            &&& ifft2d_rel(butterfly, rescale, logsize, hd, after.h_displacement@)
            &&& ifft2d_rel(butterfly, rescale, logsize, vd, after.v_displacement@)
            &&& ifft2d_rel(butterfly, rescale, logsize, hs, after.h_slope@)
            &&& ifft2d_rel(butterfly, rescale, logsize, jc, after.jacobian@)
        }
    &&& deltas_rel(
        deltas,
        texels,
        after.h_displacement@,
        after.v_displacement@,
        after.h_slope@,
        after.jacobian@,
        before.foam_map@,
        after.displacement_map@,
        after.normal_map@,
        after.foam_map@,
    )
}

/// Whether `after` can be what a whole frame makes of the cascade `before`:
/// first the spectrum is rebuilt if the parameters changed, then the frame's
/// passes run.
pub open spec fn frame_cascade_rel<
    Wv: Fn(u32, i32, i32) -> WaveVector,
    Dn: Fn(u32, WaveVector, Complex) -> Amplitude,
    Ev: Fn(Texel, Texel) -> Evolved,
    Bf: Fn(Complex, Complex, u32, u32) -> Complex,
    Rs: Fn(u32) -> u32,
    Dl: Fn(Deltas, u32) -> DeltaTerms,
>(
    wave_vector: &Wv,
    density: &Dn,
    evolve: &Ev,
    butterfly: &Bf,
    rescale: &Rs,
    deltas: &Dl,
    band: CascadeConstants,
    rebuild: bool,
    logsize: nat,
    noise: Seq<Texel>,
    before: Cascade,
    after: Cascade,
) -> bool {
    exists|mid: Cascade|
        {
            &&& if rebuild {
                initial_cascade_rel(
                    wave_vector,
                    density,
                    band,
                    pow2(logsize),
                    noise,
                    before,
                    mid,
                )
            } else {
                mid == before
            }
            &&& #[trigger] cascade_step_rel(evolve, butterfly, rescale, deltas, logsize, mid, after)
        }
}

/// With deterministic kernels the rebuilt spectrum is determined by the
/// noise field.
pub proof fn lemma_initial_cascade_determined<
    W: Fn(u32, i32, i32) -> WaveVector,
    D: Fn(u32, WaveVector, Complex) -> Amplitude,
>(
    wave_vector: &W,
    density: &D,
    band: CascadeConstants,
    n: nat,
    noise: Seq<Texel>,
    before: Cascade,
    a: Cascade,
    b: Cascade,
)
    requires
        wave_vector_deterministic(wave_vector),
        density_deterministic(density),
        initial_cascade_rel(wave_vector, density, band, n, noise, before, a),
        initial_cascade_rel(wave_vector, density, band, n, noise, before, b),
    ensures
        a.same_contents(b),
{
    let raw_a = choose|raw: Seq<Texel>|
        #[trigger] initial_rel(wave_vector, density, band, n, noise, a.wave_tex@, raw)
            && a.initial_spectrum_tex@ == packed(n, raw);
    let raw_b = choose|raw: Seq<Texel>|
        #[trigger] initial_rel(wave_vector, density, band, n, noise, b.wave_tex@, raw)
            && b.initial_spectrum_tex@ == packed(n, raw);
    lemma_initial_determined(
        wave_vector,
        density,
        band,
        n,
        noise,
        a.wave_tex@,
        raw_a,
        b.wave_tex@,
        raw_b,
    );
}

/// With deterministic kernels the outcome of one frame's passes is determined
/// by the spectrum and the foam that the cascade carried.
pub proof fn lemma_cascade_step_determined<
    Ev: Fn(Texel, Texel) -> Evolved,
    Bf: Fn(Complex, Complex, u32, u32) -> Complex,
    Rs: Fn(u32) -> u32,
    Dl: Fn(Deltas, u32) -> DeltaTerms,
>(
    evolve: &Ev,
    butterfly: &Bf,
    rescale: &Rs,
    deltas: &Dl,
    logsize: nat,
    before_a: Cascade,
    before_b: Cascade,
    a: Cascade,
    b: Cascade,
)
    requires
        evolve_deterministic(evolve),
        kernel_deterministic(butterfly),
        rescale_deterministic(rescale),
        deltas_deterministic(deltas),
        before_a.same_contents(before_b),
        cascade_step_rel(evolve, butterfly, rescale, deltas, logsize, before_a, a),
        cascade_step_rel(evolve, butterfly, rescale, deltas, logsize, before_b, b),
    ensures
        a.same_contents(b),
{
    let texels = pow2(logsize) * pow2(logsize);
    let fa = choose|hd: Seq<Texel>, vd: Seq<Texel>, hs: Seq<Texel>, jc: Seq<Texel>|
        {
            &&& #[trigger] evolve_rel(
                evolve,
                texels,
                before_a.wave_tex@,
                before_a.initial_spectrum_tex@,
                hd,
                vd,
                hs,
                jc,
            )
            &&& ifft2d_rel(butterfly, rescale, logsize, hd, a.h_displacement@)
            &&& ifft2d_rel(butterfly, rescale, logsize, vd, a.v_displacement@)
            &&& ifft2d_rel(butterfly, rescale, logsize, hs, a.h_slope@)
            &&& ifft2d_rel(butterfly, rescale, logsize, jc, a.jacobian@)
        };
    let fb = choose|hd: Seq<Texel>, vd: Seq<Texel>, hs: Seq<Texel>, jc: Seq<Texel>|
        {
            &&& #[trigger] evolve_rel(
                evolve,
                texels,
                before_b.wave_tex@,
                before_b.initial_spectrum_tex@,
                hd,
                vd,
                hs,
                jc,
            )
            &&& ifft2d_rel(butterfly, rescale, logsize, hd, b.h_displacement@)
            &&& ifft2d_rel(butterfly, rescale, logsize, vd, b.v_displacement@)
            &&& ifft2d_rel(butterfly, rescale, logsize, hs, b.h_slope@)
            &&& ifft2d_rel(butterfly, rescale, logsize, jc, b.jacobian@)
        };
    lemma_evolve_determined(
        evolve,
        texels,
        before_a.wave_tex@,
        before_a.initial_spectrum_tex@,
        fa,
        fb,
    );
    lemma_ifft2d_determined(butterfly, rescale, logsize, fa.0, a.h_displacement@, b.h_displacement@);
    lemma_ifft2d_determined(butterfly, rescale, logsize, fa.1, a.v_displacement@, b.v_displacement@);
    lemma_ifft2d_determined(butterfly, rescale, logsize, fa.2, a.h_slope@, b.h_slope@);
    lemma_ifft2d_determined(butterfly, rescale, logsize, fa.3, a.jacobian@, b.jacobian@);
    lemma_deltas_determined(
        deltas,
        texels,
        a.h_displacement@,
        a.v_displacement@,
        a.h_slope@,
        a.jacobian@,
        before_a.foam_map@,
        (a.displacement_map@, a.normal_map@, a.foam_map@),
        (b.displacement_map@, b.normal_map@, b.foam_map@),
    );
}

/// Determinism of a frame: with deterministic kernels, the textures that a
/// cascade holds after a frame are determined by the noise field, the band
/// and what the cascade held before.
pub proof fn lemma_frame_determined<
    Wv: Fn(u32, i32, i32) -> WaveVector,
    Dn: Fn(u32, WaveVector, Complex) -> Amplitude,
    Ev: Fn(Texel, Texel) -> Evolved,
    Bf: Fn(Complex, Complex, u32, u32) -> Complex,
    Rs: Fn(u32) -> u32,
    Dl: Fn(Deltas, u32) -> DeltaTerms,
>(
    wave_vector: &Wv,
    density: &Dn,
    evolve: &Ev,
    butterfly: &Bf,
    rescale: &Rs,
    deltas: &Dl,
    band: CascadeConstants,
    rebuild: bool,
    logsize: nat,
    noise: Seq<Texel>,
    before: Cascade,
    a: Cascade,
    b: Cascade,
)
    requires
        wave_vector_deterministic(wave_vector),
        density_deterministic(density),
        evolve_deterministic(evolve),
        kernel_deterministic(butterfly),
        rescale_deterministic(rescale),
        deltas_deterministic(deltas),
        frame_cascade_rel(
            wave_vector,
            density,
            evolve,
            butterfly,
            rescale,
            deltas,
            band,
            rebuild,
            logsize,
            noise,
            before,
            a,
        ),
        frame_cascade_rel(
            wave_vector,
            density,
            evolve,
            butterfly,
            rescale,
            deltas,
            band,
            rebuild,
            logsize,
            noise,
            before,
            b,
        ),
    ensures
        a.same_contents(b),
{
    let mid_a = choose|mid: Cascade|
        {
            &&& if rebuild {
                initial_cascade_rel(
                    wave_vector,
                    density,
                    band,
                    pow2(logsize),
                    noise,
                    before,
                    mid,
                )
            } else {
                mid == before
            }
            &&& #[trigger] cascade_step_rel(evolve, butterfly, rescale, deltas, logsize, mid, a)
        };
    let mid_b = choose|mid: Cascade|
        {
            &&& if rebuild {
                initial_cascade_rel(
                    wave_vector,
                    density,
                    band,
                    pow2(logsize),
                    noise,
                    before,
                    mid,
                )
            } else {
                mid == before
            }
            &&& #[trigger] cascade_step_rel(evolve, butterfly, rescale, deltas, logsize, mid, b)
        };
    if rebuild {
        lemma_initial_cascade_determined(
            wave_vector,
            density,
            band,
            pow2(logsize),
            noise,
            before,
            mid_a,
            mid_b,
        );
    }
    lemma_cascade_step_determined(evolve, butterfly, rescale, deltas, logsize, mid_a, mid_b, a, b);
}

/// Runs spectrum synthesis and conjugate packing on one cascade.
fn run_initial<W: Fn(u32, i32, i32) -> WaveVector, D: Fn(u32, WaveVector, Complex) -> Amplitude>(
    grid: &Grid,
    simdata: &SimData,
    cascade: &mut Cascade,
    band: &CascadeConstants,
    wave_vector: &W,
    density: &D,
)
    requires
        grid.wf(),
        grid.spec_size() >= 2,
        simdata.fits(*grid),
        old(cascade).fits(*grid),
        wave_vector_total(wave_vector),
        density_total(density),
    ensures
        final(cascade).fits(*grid),
        initial_cascade_rel(
            wave_vector,
            density,
            *band,
            grid.spec_size() as nat,
            simdata.gaussian_tex@,
            *old(cascade),
            *final(cascade),
        ),
{
    initial_spectra(
        grid,
        band,
        &simdata.gaussian_tex,
        &mut cascade.wave_tex,
        &mut cascade.initial_spectrum_tex,
        wave_vector,
        density,
    );
    let ghost raw = cascade.initial_spectrum_tex@;
    pack_conjugates(&mut cascade.initial_spectrum_tex);
    proof {
        assert(initial_rel(
            wave_vector,
            density,
            *band,
            grid.spec_size() as nat,
            simdata.gaussian_tex@,
            cascade.wave_tex@,
            raw,
        ));
    }
}

/// Runs one frame's passes on one cascade.
fn run_cascade<
    Ev: Fn(Texel, Texel) -> Evolved,
    Bf: Fn(Complex, Complex, u32, u32) -> Complex,
    Rs: Fn(u32) -> u32,
    Dl: Fn(Deltas, u32) -> DeltaTerms,
>(
    grid: &Grid,
    simdata: &SimData,
    fft: &mut FourierTransform,
    cascade: &mut Cascade,
    evolve: &Ev,
    butterfly: &Bf,
    rescale: &Rs,
    deltas: &Dl,
)
    requires
        grid.wf(),
        simdata.fits(*grid),
        old(fft).fits(grid.spec_size()),
        old(cascade).fits(*grid),
        evolve_total(evolve),
        kernel_total(butterfly),
        rescale_total(rescale),
        deltas_total(deltas),
    ensures
        final(fft).fits(grid.spec_size()),
        final(cascade).fits(*grid),
        cascade_step_rel(
            evolve,
            butterfly,
            rescale,
            deltas,
            grid.spec_logsize() as nat,
            *old(cascade),
            *final(cascade),
        ),
{
    cascade.evolve_spectra(grid, evolve);
    let ghost hd = cascade.h_displacement@;
    let ghost vd = cascade.v_displacement@;
    let ghost hs = cascade.h_slope@;
    let ghost jc = cascade.jacobian@;
    fft.ifft2d(&simdata.butterfly, &mut cascade.h_displacement, butterfly, rescale);
    fft.ifft2d(&simdata.butterfly, &mut cascade.v_displacement, butterfly, rescale);
    fft.ifft2d(&simdata.butterfly, &mut cascade.h_slope, butterfly, rescale);
    fft.ifft2d(&simdata.butterfly, &mut cascade.jacobian, butterfly, rescale);
    cascade.process_deltas(grid, deltas);
    proof {
        assert(evolve_rel(
            evolve,
            pow2(grid.spec_logsize() as nat) * pow2(grid.spec_logsize() as nat),
            old(cascade).wave_tex@,
            old(cascade).initial_spectrum_tex@,
            hd,
            vd,
            hs,
            jc,
        ));
    }
}

/// The whole simulation: shared data, three cascades, the transform engine,
/// and whether the spectrum has to be rebuilt before the next frame.
pub struct Simulation {
    /// The grid that every texture lives on.
    pub grid: Grid,
    /// Noise field and butterfly table.
    pub simdata: SimData,
    /// The cascade of the longest waves.
    pub cascade0: Cascade,
    /// The cascade of the middle band.
    pub cascade1: Cascade,
    /// The cascade of the shortest waves.
    pub cascade2: Cascade,
    /// The transform engine, with its scratch texture.
    pub fft: FourierTransform,
    /// Set when the parameters differ from those of the previous frame.
    pub consts_changed: bool,
}

impl Simulation {
    /// Every member is well formed and belongs to the one grid.
    pub open spec fn wf(&self) -> bool {
        &&& self.grid.wf()
        &&& self.simdata.fits(self.grid)
        &&& self.cascade0.fits(self.grid)
        &&& self.cascade1.fits(self.grid)
        &&& self.cascade2.fits(self.grid)
        &&& self.fft.fits(self.grid.spec_size())
    }

    /// The cascade with number `index`.
    pub open spec fn spec_cascade(&self, index: u32) -> Cascade {
        if index == 0 {
            self.cascade0
        } else if index == 1 {
            self.cascade1
        } else {
            self.cascade2
        }
    }

    /// A simulation on `grid` with the noise field of `seed`. The spectrum is
    /// marked as due, so that the first frame builds it.
    pub fn new<F: Fn(u64, u64) -> Complex>(grid: Grid, seed: u32, gaussian_number: &F) -> (sim:
        Simulation)
        requires
            grid.wf(),
            gaussian_total(gaussian_number),
        ensures
            sim.wf(),
            sim.grid == grid,
            sim.consts_changed,
            noise_rel(gaussian_number, seed as u64, grid.spec_texels(), sim.simdata.gaussian_tex@),
            sim.cascade0.is_cleared(),
            sim.cascade1.is_cleared(),
            sim.cascade2.is_cleared(),
    {
        Simulation {
            grid,
            simdata: SimData::new(&grid, seed, gaussian_number),
            cascade0: Cascade::new(&grid),
            cascade1: Cascade::new(&grid),
            cascade2: Cascade::new(&grid),
            fft: FourierTransform::new(&grid),
            consts_changed: true,
        }
    }

    /// Rebuilds the spectrum of cascade `pc` within the band that the
    /// parameters give it: synthesis, then conjugate packing. The grid has to
    /// have more than one texel, for its wave numbers to be integers.
    pub fn compute_initial<
        W: Fn(u32, i32, i32) -> WaveVector,
        D: Fn(u32, WaveVector, Complex) -> Amplitude,
    >(&mut self, pc: u32, consts: &SimConstants, wave_vector: &W, density: &D)
        requires
            old(self).wf(),
            old(self).grid.spec_size() >= 2,
            pc < CASCADES,
            wave_vector_total(wave_vector),
            density_total(density),
        ensures
            final(self).wf(),
            final(self).grid == old(self).grid,
            final(self).simdata == old(self).simdata,
            final(self).consts_changed == old(self).consts_changed,
            initial_cascade_rel(
                wave_vector,
                density,
                consts.spec_cascade(pc),
                old(self).grid.spec_size() as nat,
                old(self).simdata.gaussian_tex@,
                old(self).spec_cascade(pc),
                final(self).spec_cascade(pc),
            ),
            forall|other: u32|
                other < CASCADES && other != pc ==> final(self).spec_cascade(other) == old(
                    self,
                ).spec_cascade(other),
    {
        let band = consts.cascade(pc);
        if pc == 0 {
            run_initial(
                &self.grid,
                &self.simdata,
                &mut self.cascade0,
                &band,
                wave_vector,
                density,
            );
        } else if pc == 1 {
            run_initial(
                &self.grid,
                &self.simdata,
                &mut self.cascade1,
                &band,
                wave_vector,
                density,
            );
        } else {
            run_initial(
                &self.grid,
                &self.simdata,
                &mut self.cascade2,
                &band,
                wave_vector,
                density,
            );
        }
    }

    /// Runs one frame's passes on cascade `index`: time evolution, the four
    /// inverse transforms, delta processing.
    pub fn compute_cascade<
        Ev: Fn(Texel, Texel) -> Evolved,
        Bf: Fn(Complex, Complex, u32, u32) -> Complex,
        Rs: Fn(u32) -> u32,
        Dl: Fn(Deltas, u32) -> DeltaTerms,
    >(&mut self, index: u32, evolve: &Ev, butterfly: &Bf, rescale: &Rs, deltas: &Dl)
        requires
            old(self).wf(),
            index < CASCADES,
            evolve_total(evolve),
            kernel_total(butterfly),
            rescale_total(rescale),
            deltas_total(deltas),
        ensures
            final(self).wf(),
            final(self).grid == old(self).grid,
            final(self).simdata == old(self).simdata,
            final(self).consts_changed == old(self).consts_changed,
            cascade_step_rel(
                evolve,
                butterfly,
                rescale,
                deltas,
                old(self).grid.spec_logsize() as nat,
                old(self).spec_cascade(index),
                final(self).spec_cascade(index),
            ),
            forall|other: u32|
                other < CASCADES && other != index ==> final(self).spec_cascade(other) == old(
                    self,
                ).spec_cascade(other),
    {
        if index == 0 {
            run_cascade(
                &self.grid,
                &self.simdata,
                &mut self.fft,
                &mut self.cascade0,
                evolve,
                butterfly,
                rescale,
                deltas,
            );
        } else if index == 1 {
            run_cascade(
                &self.grid,
                &self.simdata,
                &mut self.fft,
                &mut self.cascade1,
                evolve,
                butterfly,
                rescale,
                deltas,
            );
        } else {
            run_cascade(
                &self.grid,
                &self.simdata,
                &mut self.fft,
                &mut self.cascade2,
                evolve,
                butterfly,
                rescale,
                deltas,
            );
        }
    }

    /// Ends a frame: compares the parameters as they were when the frame began
    /// with what they are now, and marks the spectrum as due exactly if they
    /// differ.
    pub fn end_frame(&mut self, before: &SimConstants, after: &SimConstants)
        ensures
            final(self).consts_changed == !before.spec_equals(after),
            final(self).grid == old(self).grid,
            final(self).simdata == old(self).simdata,
            final(self).cascade0 == old(self).cascade0,
            final(self).cascade1 == old(self).cascade1,
            final(self).cascade2 == old(self).cascade2,
            final(self).fft == old(self).fft,
    {
        self.consts_changed = !before.equals(after);
    }
}

} // verus!
