//! One cascade: the textures of one spatial-frequency band, and the two
//! per-texel passes that frame the inverse transform.
//!
//! Time evolution packs eight complex frequency-domain signals, two to a
//! texel, into four textures. After the inverse transform each of those
//! textures carries two real spatial signals in its first two lanes, which
//! delta processing unpacks again. Which signal travels in which lane is fixed
//! here; what the signals are is up to the kernels.

use vstd::prelude::*;
use crate::grid::{Grid, lemma_grid_bounds};
use crate::single::{at_most, is_nan, larger, single_eq, single_le, single_lt, single_max};
use crate::texture::{Complex, Texel, Texture, Vec3, ONE_BITS, ZERO_BITS};

verus! {

/// The frequency-domain fields of one texel at one instant.
#[derive(Clone, Copy, PartialEq, Eq, Structural, Debug)]
pub struct Evolved {
    /// Horizontal displacement along x.
    pub dx: Complex,
    /// Vertical displacement: the height `h(t)`.
    pub dy: Complex,
    /// Horizontal displacement along z.
    pub dz: Complex,
    /// Slope along x.
    pub nx: Complex,
    /// Slope along z.
    pub nz: Complex,
    /// Jacobian component xx.
    pub j_xx: Complex,
    /// Jacobian component zz.
    pub j_zz: Complex,
    /// Jacobian component xz.
    pub j_xz: Complex,
}

/// The spatial-domain fields of one texel, as the inverse transform leaves them.
#[derive(Clone, Copy, PartialEq, Eq, Structural, Debug)]
pub struct Deltas {
    /// Horizontal displacement along x.
    pub dx: u32,
    /// Height.
    pub dy: u32,
    /// Horizontal displacement along z.
    pub dz: u32,
    /// Slope along x.
    pub nx: u32,
    /// Slope along z.
    pub nz: u32,
    /// Jacobian component xx.
    pub j_xx: u32,
    /// Jacobian component zz.
    pub j_zz: u32,
    /// Jacobian component xz.
    pub j_xz: u32,
}

/// What the delta kernel reports for one texel.
#[derive(Clone, Copy, PartialEq, Eq, Structural, Debug)]
pub struct DeltaTerms {
    /// Displacement `(x, y, z)`.
    pub displacement: Vec3,
    /// Unit normal `(x, y, z)`.
    pub normal: Vec3,
    /// The jacobian signal `J` of this frame, foam bias included.
    pub jacobian: u32,
    /// The foam of the previous frame after one time step of decay.
    pub decayed: u32,
    /// The decayed foam with the jacobian signal added to it.
    pub injected: u32,
}

/// The foam of this frame: the jacobian signal or the accumulated foam,
/// whichever is larger. The accumulated foam is the decayed foam of the
/// previous frame, into which the jacobian signal is injected where that
/// signal is zero or negative.
pub open spec fn foam_rule(jacobian: u32, decayed: u32, injected: u32) -> u32 {
    let accumulation = if single_le(jacobian, ZERO_BITS) {
        injected
    } else {
        decayed
    };
    single_max(jacobian, accumulation)
}

/// The surface that the terms of one texel give.
pub open spec fn surface_of(t: DeltaTerms) -> Surface {
    Surface {
        displacement: t.displacement,
        normal: t.normal,
        foam: foam_rule(t.jacobian, t.decayed, t.injected),
    }
}

/// Foam is bounded below by the jacobian signal of the frame.
pub proof fn lemma_foam_bounded_below(jacobian: u32, decayed: u32, injected: u32)
    requires
        !is_nan(jacobian),
    ensures
        single_le(jacobian, foam_rule(jacobian, decayed, injected)),
{
}

/// Without injection, that is with a positive jacobian signal, foam persists:
/// it is the decayed foam of the previous frame for as long as that stays
/// above the jacobian signal, and the jacobian signal from then on.
pub proof fn lemma_foam_persists(jacobian: u32, decayed: u32, injected: u32)
    requires
        !is_nan(jacobian),
        !is_nan(decayed),
        !single_le(jacobian, ZERO_BITS),
    ensures
        !single_le(decayed, jacobian) ==> foam_rule(jacobian, decayed, injected) == decayed,
        single_le(decayed, jacobian) ==> single_eq(
            foam_rule(jacobian, decayed, injected),
            jacobian,
        ),
{
}

/// Decay of foam: while the jacobian signal is positive (so that nothing is
/// injected) and below the foam of the previous frame, and the decay step has
/// taken the foam of the previous frame down, the foam of this frame is below
/// that of the previous frame.
pub proof fn lemma_foam_decays(foam_prev: u32, jacobian: u32, decayed: u32, injected: u32)
    requires
        single_lt(ZERO_BITS, jacobian),
        single_lt(jacobian, foam_prev),
        single_lt(decayed, foam_prev),
    ensures
        single_lt(foam_rule(jacobian, decayed, injected), foam_prev),
{
}

/// Applies the foam rule.
pub fn foam(jacobian: u32, decayed: u32, injected: u32) -> (f: u32)
    ensures
        f == foam_rule(jacobian, decayed, injected),
{
    let accumulation = if at_most(jacobian, ZERO_BITS) {
        injected
    } else {
        decayed
    };
    larger(jacobian, accumulation)
}

/// The renderable surface at one texel.
#[derive(Clone, Copy, PartialEq, Eq, Structural, Debug)]
pub struct Surface {
    /// Displacement `(x, y, z)`.
    pub displacement: Vec3,
    /// Unit normal `(x, y, z)`.
    pub normal: Vec3,
    /// Foam amount.
    pub foam: u32,
}

/// The texel that carries the two horizontal displacements into the transform.
pub open spec fn h_displacement_texel(e: Evolved) -> Texel {
    Texel::spec_pack(e.dx, e.dz)
}

/// The texel that carries the height and the mixed jacobian component into
/// the transform.
pub open spec fn v_displacement_texel(e: Evolved) -> Texel {
    Texel::spec_pack(e.dy, e.j_xz)
}

/// The texel that carries the two slopes into the transform.
pub open spec fn h_slope_texel(e: Evolved) -> Texel {
    Texel::spec_pack(e.nx, e.nz)
}

/// The texel that carries the two diagonal jacobian components into the
/// transform.
pub open spec fn jacobian_texel(e: Evolved) -> Texel {
    Texel::spec_pack(e.j_xx, e.j_zz)
}

/// The spatial fields that the four transformed texels carry in their first
/// two lanes.
pub open spec fn deltas_of(
    h_displacement: Texel,
    v_displacement: Texel,
    h_slope: Texel,
    jacobian: Texel,
) -> Deltas {
    Deltas {
        dx: h_displacement.x,
        dz: h_displacement.y,
        dy: v_displacement.x,
        j_xz: v_displacement.y,
        nx: h_slope.x,
        nz: h_slope.y,
        j_xx: jacobian.x,
        j_zz: jacobian.y,
    }
}

/// The displacement-map texel of a surface sample.
pub open spec fn displacement_texel(s: Surface) -> Texel {
    Texel { x: s.displacement.x, y: s.displacement.y, z: s.displacement.z, w: ONE_BITS }
}

/// The normal-map texel of a surface sample.
pub open spec fn normal_texel(s: Surface) -> Texel {
    Texel { x: s.normal.x, y: s.normal.y, z: s.normal.z, w: ONE_BITS }
}

/// The foam-map texel of a surface sample: the foam amount in three lanes.
pub open spec fn foam_texel(s: Surface) -> Texel {
    Texel { x: s.foam, y: s.foam, z: s.foam, w: ONE_BITS }
}

/// Whether the kernel `f` accepts every texel.
pub open spec fn evolve_total<F: Fn(Texel, Texel) -> Evolved>(f: &F) -> bool {
    forall|wave: Texel, h0: Texel| call_requires(*f, (wave, h0))
}

/// Whether the kernel `f` accepts every texel.
pub open spec fn deltas_total<F: Fn(Deltas, u32) -> DeltaTerms>(f: &F) -> bool {
    forall|d: Deltas, foam: u32| call_requires(*f, (d, foam))
}

/// Whether the four texels can be what time evolution stores for one texel.
pub open spec fn evolve_texel_rel<F: Fn(Texel, Texel) -> Evolved>(
    f: &F,
    wave: Texel,
    h0: Texel,
    h_displacement: Texel,
    v_displacement: Texel,
    h_slope: Texel,
    jacobian: Texel,
) -> bool {
    exists|e: Evolved|
        {
            &&& #[trigger] call_ensures(*f, (wave, h0), e)
            &&& h_displacement == h_displacement_texel(e)
            &&& v_displacement == v_displacement_texel(e)
            &&& h_slope == h_slope_texel(e)
            &&& jacobian == jacobian_texel(e)
        }
}

/// Whether the four sequences can be the result of time evolution over
/// `texels` texels.
pub open spec fn evolve_rel<F: Fn(Texel, Texel) -> Evolved>(
    f: &F,
    texels: nat,
    waves: Seq<Texel>,
    spectrum: Seq<Texel>,
    h_displacement: Seq<Texel>,
    v_displacement: Seq<Texel>,
    h_slope: Seq<Texel>,
    jacobian: Seq<Texel>,
) -> bool {
    &&& h_displacement.len() == texels
    &&& v_displacement.len() == texels
    &&& h_slope.len() == texels
    &&& jacobian.len() == texels
    &&& forall|i: int|
        0 <= i < texels ==> evolve_texel_rel(
            f,
            waves[i],
            spectrum[i],
            #[trigger] h_displacement[i],
            v_displacement[i],
            h_slope[i],
            jacobian[i],
        )
}

/// Whether the three texels can be what delta processing stores for one
/// texel: the maps of the surface that the kernel's terms give, the kernel
/// having seen the spatial fields of the texel and its foam of the previous
/// frame.
pub open spec fn deltas_texel_rel<F: Fn(Deltas, u32) -> DeltaTerms>(
    f: &F,
    d: Deltas,
    foam_prev: Texel,
    displacement: Texel,
    normal: Texel,
    foam: Texel,
) -> bool {
    exists|t: DeltaTerms|
        {
            &&& #[trigger] call_ensures(*f, (d, foam_prev.x), t)
            &&& displacement == displacement_texel(surface_of(t))
            &&& normal == normal_texel(surface_of(t))
            &&& foam == foam_texel(surface_of(t))
        }
}

/// Whether the three sequences can be the result of delta processing over
/// `texels` texels, given the transformed fields and the foam of the previous
/// frame.
pub open spec fn deltas_rel<F: Fn(Deltas, u32) -> DeltaTerms>(
    f: &F,
    texels: nat,
    h_displacement: Seq<Texel>,
    v_displacement: Seq<Texel>,
    h_slope: Seq<Texel>,
    jacobian: Seq<Texel>,
    foam_prev: Seq<Texel>,
    displacement: Seq<Texel>,
    normal: Seq<Texel>,
    foam: Seq<Texel>,
) -> bool {
    &&& displacement.len() == texels
    &&& normal.len() == texels
    &&& foam.len() == texels
    &&& forall|i: int|
        0 <= i < texels ==> deltas_texel_rel(
            f,
            deltas_of(h_displacement[i], v_displacement[i], h_slope[i], jacobian[i]),
            foam_prev[i],
            #[trigger] displacement[i],
            normal[i],
            foam[i],
        )
}

/// Whether the kernel `f` returns one result only for each input.
pub open spec fn evolve_deterministic<F: Fn(Texel, Texel) -> Evolved>(f: &F) -> bool {
    forall|wave: Texel, h0: Texel, r1: Evolved, r2: Evolved|
        call_ensures(*f, (wave, h0), r1) && call_ensures(*f, (wave, h0), r2) ==> r1 == r2
}

/// Whether the kernel `f` returns one result only for each input.
pub open spec fn deltas_deterministic<F: Fn(Deltas, u32) -> DeltaTerms>(f: &F) -> bool {
    forall|d: Deltas, foam: u32, r1: DeltaTerms, r2: DeltaTerms|
        call_ensures(*f, (d, foam), r1) && call_ensures(*f, (d, foam), r2) ==> r1 == r2
}

/// With a deterministic kernel the evolved fields are determined by the wave
/// vectors and the spectrum.
pub proof fn lemma_evolve_determined<F: Fn(Texel, Texel) -> Evolved>(
    f: &F,
    texels: nat,
    waves: Seq<Texel>,
    spectrum: Seq<Texel>,
    a: (Seq<Texel>, Seq<Texel>, Seq<Texel>, Seq<Texel>),
    b: (Seq<Texel>, Seq<Texel>, Seq<Texel>, Seq<Texel>),
)
    requires
        evolve_deterministic(f),
        evolve_rel(f, texels, waves, spectrum, a.0, a.1, a.2, a.3),
        evolve_rel(f, texels, waves, spectrum, b.0, b.1, b.2, b.3),
    ensures
        a == b,
{
    assert forall|i: int| 0 <= i < texels implies a.0[i] == b.0[i] && a.1[i] == b.1[i] && a.2[i]
        == b.2[i] && a.3[i] == b.3[i] by {
        assert(evolve_texel_rel(f, waves[i], spectrum[i], a.0[i], a.1[i], a.2[i], a.3[i]));
        assert(evolve_texel_rel(f, waves[i], spectrum[i], b.0[i], b.1[i], b.2[i], b.3[i]));
    }
    assert(a.0 =~= b.0);
    assert(a.1 =~= b.1);
    assert(a.2 =~= b.2);
    assert(a.3 =~= b.3);
}

/// With a deterministic kernel the three maps are determined by the
/// transformed fields and the foam of the previous frame.
pub proof fn lemma_deltas_determined<F: Fn(Deltas, u32) -> DeltaTerms>(
    f: &F,
    texels: nat,
    h_displacement: Seq<Texel>,
    v_displacement: Seq<Texel>,
    h_slope: Seq<Texel>,
    jacobian: Seq<Texel>,
    foam_prev: Seq<Texel>,
    a: (Seq<Texel>, Seq<Texel>, Seq<Texel>),
    b: (Seq<Texel>, Seq<Texel>, Seq<Texel>),
)
    requires
        deltas_deterministic(f),
        deltas_rel(
            f,
            texels,
            h_displacement,
            v_displacement,
            h_slope,
            jacobian,
            foam_prev,
            a.0,
            a.1,
            a.2,
        ),
        deltas_rel(
            f,
            texels,
            h_displacement,
            v_displacement,
            h_slope,
            jacobian,
            foam_prev,
            b.0,
            b.1,
            b.2,
        ),
    ensures
        a == b,
{
    assert forall|i: int| 0 <= i < texels implies a.0[i] == b.0[i] && a.1[i] == b.1[i] && a.2[i]
        == b.2[i] by {
        let d = deltas_of(h_displacement[i], v_displacement[i], h_slope[i], jacobian[i]);
        assert(deltas_texel_rel(f, d, foam_prev[i], a.0[i], a.1[i], a.2[i]));
        assert(deltas_texel_rel(f, d, foam_prev[i], b.0[i], b.1[i], b.2[i]));
    }
    assert(a.0 =~= b.0);
    assert(a.1 =~= b.1);
    assert(a.2 =~= b.2);
}

/// Whether every texel of the sequence is zero.
pub open spec fn cleared(texels: Seq<Texel>) -> bool {
    forall|i: int| 0 <= i < texels.len() ==> texels[i] == Texel::spec_zero()
}

/// The textures of one cascade.
pub struct Cascade {
    /// Per texel `(kx, kz, 1/|k|, omega)` inside the band, zero outside it.
    pub wave_tex: Texture,
    /// Per texel `(h0, conj h0(-k))` once packed.
    pub initial_spectrum_tex: Texture,
    /// Final displacement.
    pub displacement_map: Texture,
    /// Final normal.
    pub normal_map: Texture,
    /// Final foam; read back by the next frame.
    pub foam_map: Texture,
    /// Transform buffer for the horizontal displacements.
    pub h_displacement: Texture,
    /// Transform buffer for the slopes.
    pub h_slope: Texture,
    /// Transform buffer for the height and the mixed jacobian component.
    pub v_displacement: Texture,
    /// Transform buffer for the diagonal jacobian components.
    pub jacobian: Texture,
}

impl Cascade {
    /// Every texture is well formed and as large as `grid`.
    pub open spec fn fits(&self, grid: Grid) -> bool {
        &&& self.wave_tex.is_square(grid.spec_size())
        &&& self.initial_spectrum_tex.is_square(grid.spec_size())
        &&& self.displacement_map.is_square(grid.spec_size())
        &&& self.normal_map.is_square(grid.spec_size())
        &&& self.foam_map.is_square(grid.spec_size())
        &&& self.h_displacement.is_square(grid.spec_size())
        &&& self.h_slope.is_square(grid.spec_size())
        &&& self.v_displacement.is_square(grid.spec_size())
        &&& self.jacobian.is_square(grid.spec_size())
    }

    /// Every texture of `self` holds the same texels as its counterpart in `other`.
    pub open spec fn same_contents(&self, other: Cascade) -> bool {
        &&& self.wave_tex@ == other.wave_tex@
        &&& self.initial_spectrum_tex@ == other.initial_spectrum_tex@
        &&& self.displacement_map@ == other.displacement_map@
        &&& self.normal_map@ == other.normal_map@
        &&& self.foam_map@ == other.foam_map@
        &&& self.h_displacement@ == other.h_displacement@
        &&& self.h_slope@ == other.h_slope@
        &&& self.v_displacement@ == other.v_displacement@
        &&& self.jacobian@ == other.jacobian@
    }

    /// Every texel of every texture is zero.
    pub open spec fn is_cleared(&self) -> bool {
        &&& cleared(self.wave_tex@)
        &&& cleared(self.initial_spectrum_tex@)
        &&& cleared(self.displacement_map@)
        &&& cleared(self.normal_map@)
        &&& cleared(self.foam_map@)
        &&& cleared(self.h_displacement@)
        &&& cleared(self.h_slope@)
        &&& cleared(self.v_displacement@)
        &&& cleared(self.jacobian@)
    }

    /// A cascade on `grid` with every texture cleared to zero.
    pub fn new(grid: &Grid) -> (cascade: Cascade)
        requires
            grid.wf(),
        ensures
            cascade.fits(*grid),
            cascade.is_cleared(),
    {
        let n = grid.size();
        proof {
            lemma_grid_bounds(*grid);
        }
        Cascade {
            wave_tex: Texture::new_storage(n, n),
            initial_spectrum_tex: Texture::new_storage(n, n),
            displacement_map: Texture::new_storage(n, n),
            normal_map: Texture::new_storage(n, n),
            foam_map: Texture::new_storage(n, n),
            h_displacement: Texture::new_storage(n, n),
            h_slope: Texture::new_storage(n, n),
            v_displacement: Texture::new_storage(n, n),
            jacobian: Texture::new_storage(n, n),
        }
    }

    /// Time evolution: turns the packed initial spectrum into the eight
    /// frequency-domain fields of this instant and stores them, two to a
    /// texel, in the four transform buffers.
    pub fn evolve_spectra<F: Fn(Texel, Texel) -> Evolved>(&mut self, grid: &Grid, evolve: &F)
        requires
            grid.wf(),
            old(self).fits(*grid),
            evolve_total(evolve),
        ensures
            final(self).fits(*grid),
            final(self).wave_tex@ == old(self).wave_tex@,
            final(self).initial_spectrum_tex@ == old(self).initial_spectrum_tex@,
            final(self).displacement_map@ == old(self).displacement_map@,
            final(self).normal_map@ == old(self).normal_map@,
            final(self).foam_map@ == old(self).foam_map@,
            evolve_rel(
                evolve,
                grid.spec_texels(),
                old(self).wave_tex@,
                old(self).initial_spectrum_tex@,
                final(self).h_displacement@,
                final(self).v_displacement@,
                final(self).h_slope@,
                final(self).jacobian@,
            ),
    {
        let n = grid.size();
        let count = grid.texels();
        let mut hd: Vec<Texel> = Vec::new();
        let mut vd: Vec<Texel> = Vec::new();
        let mut hs: Vec<Texel> = Vec::new();
        let mut jc: Vec<Texel> = Vec::new();
        let mut i: usize = 0;
        while i < count
            invariant
                evolve_total(evolve),
                self.wave_tex@.len() == count,
                self.initial_spectrum_tex@.len() == count,
                i <= count,
                evolve_rel(
                    evolve,
                    i as nat,
                    self.wave_tex@,
                    self.initial_spectrum_tex@,
                    hd@,
                    vd@,
                    hs@,
                    jc@,
                ),
            decreases count - i,
        {
            let e = evolve(self.wave_tex.fetch(i), self.initial_spectrum_tex.fetch(i));
            hd.push(Texel::pack(e.dx, e.dz));
            vd.push(Texel::pack(e.dy, e.j_xz));
            hs.push(Texel::pack(e.nx, e.nz));
            jc.push(Texel::pack(e.j_xx, e.j_zz));
            i = i + 1;
        }
        self.h_displacement = Texture::from_texels(n, n, hd);
        self.v_displacement = Texture::from_texels(n, n, vd);
        self.h_slope = Texture::from_texels(n, n, hs);
        self.jacobian = Texture::from_texels(n, n, jc);
    }

    /// Delta processing: turns the transformed fields and the foam of the
    /// previous frame into the displacement, normal and foam maps of this
    /// frame. The foam map is read in full before it is replaced.
    pub fn process_deltas<F: Fn(Deltas, u32) -> DeltaTerms>(&mut self, grid: &Grid, deltas: &F)
        requires
            grid.wf(),
            old(self).fits(*grid),
            deltas_total(deltas),
        ensures
            final(self).fits(*grid),
            final(self).wave_tex@ == old(self).wave_tex@,
            final(self).initial_spectrum_tex@ == old(self).initial_spectrum_tex@,
            final(self).h_displacement@ == old(self).h_displacement@,
            final(self).v_displacement@ == old(self).v_displacement@,
            final(self).h_slope@ == old(self).h_slope@,
            final(self).jacobian@ == old(self).jacobian@,
            deltas_rel(
                deltas,
                grid.spec_texels(),
                old(self).h_displacement@,
                old(self).v_displacement@,
                old(self).h_slope@,
                old(self).jacobian@,
                old(self).foam_map@,
                final(self).displacement_map@,
                final(self).normal_map@,
                final(self).foam_map@,
            ),
    {
        let n = grid.size();
        let count = grid.texels();
        let mut displacement: Vec<Texel> = Vec::new();
        let mut normal: Vec<Texel> = Vec::new();
        let mut foam: Vec<Texel> = Vec::new();
        let mut i: usize = 0;
        while i < count
            invariant
                deltas_total(deltas),
                self.h_displacement@.len() == count,
                self.v_displacement@.len() == count,
                self.h_slope@.len() == count,
                self.jacobian@.len() == count,
                self.foam_map@.len() == count,
                i <= count,
                deltas_rel(
                    deltas,
                    i as nat,
                    self.h_displacement@,
                    self.v_displacement@,
                    self.h_slope@,
                    self.jacobian@,
                    self.foam_map@,
                    displacement@,
                    normal@,
                    foam@,
                ),
            decreases count - i,
        {
            let hd = self.h_displacement.fetch(i);
            let vd = self.v_displacement.fetch(i);
            let hs = self.h_slope.fetch(i);
            let jc = self.jacobian.fetch(i);
            let d = Deltas {
                dx: hd.x,
                dz: hd.y,
                dy: vd.x,
                j_xz: vd.y,
                nx: hs.x,
                nz: hs.y,
                j_xx: jc.x,
                j_zz: jc.y,
            };
            let t = deltas(d, self.foam_map.fetch(i).x);
            let level = self::foam(t.jacobian, t.decayed, t.injected);
            displacement.push(
                Texel { x: t.displacement.x, y: t.displacement.y, z: t.displacement.z, w: ONE_BITS },
            );
            normal.push(Texel { x: t.normal.x, y: t.normal.y, z: t.normal.z, w: ONE_BITS });
            foam.push(Texel { x: level, y: level, z: level, w: ONE_BITS });
            i = i + 1;
        }
        self.displacement_map = Texture::from_texels(n, n, displacement);
        self.normal_map = Texture::from_texels(n, n, normal);
        self.foam_map = Texture::from_texels(n, n, foam);
    }
}

} // verus!
