//! Assembly of the initial spectrum `h0(k)` and its Hermitian packing.
//!
//! The spectral density itself is rounding arithmetic and comes from a kernel
//! that the caller supplies. This module fixes how grid positions map to wave
//! numbers, what is stored for a texel inside and outside the band, and how
//! each texel is paired with the conjugate of its mirror image.

use vstd::prelude::*;
use crate::grid::{Grid, lemma_grid_bounds, lemma_grid_even};
use crate::params::CascadeConstants;
use crate::single::{at_most, single_le};
use crate::texture::{Complex, Texel, Texture, texel_index, lemma_texel_index_bound,
    lemma_index_coordinates, ZERO_BITS, ONE_BITS};

verus! {

/// The integer wave number of column (or row) `x` on a grid of even side `n`:
/// the grid is centred, so column `n / 2` carries wave number zero. The
/// physical wave number is this integer times `2*pi / lengthscale`.
///
/// A grid of a single texel has its centre at one half, which no integer
/// stands for; the passes that need wave numbers leave that grid out.
pub open spec fn wave_number(n: nat, x: nat) -> int {
    x - n / 2
}

/// The column (or row) that carries the negated wave number: `(n - x) mod n`.
pub open spec fn mirror(n: nat, x: nat) -> nat {
    ((n - x) % (n as int)) as nat
}

/// Mirroring stays inside the grid, is its own inverse, and negates the wave
/// number modulo `n`.
pub proof fn lemma_mirror(n: nat, x: nat)
    requires
        x < n,
    ensures
        mirror(n, x) < n,
        mirror(n, mirror(n, x)) == x,
        x > 0 ==> mirror(n, x) == n - x,
        x == 0 ==> mirror(n, x) == 0,
        n % 2 == 0 && x > 0 ==> wave_number(n, mirror(n, x)) == -wave_number(n, x),
{
    if x == 0 {
        assert((n as int) % (n as int) == 0) by (nonlinear_arith)
            requires
                n > 0,
        ;
    } else {
        let m = (n - x) as int;
        assert(m % (n as int) == m) by (nonlinear_arith)
            requires
                0 <= m < n,
        ;
        let back = (n - m) as int;
        assert(back % (n as int) == back) by (nonlinear_arith)
            requires
                0 <= back < n,
        ;
    }
}

/// Computes the integer wave number of column (or row) `x` on a grid of more
/// than one texel: `x` less half the side.
pub fn wave_index(grid: &Grid, x: u32) -> (k: i32)
    requires
        grid.wf(),
        grid.spec_size() >= 2,
        x < grid.spec_size(),
    ensures
        k == wave_number(grid.spec_size() as nat, x as nat),
        2 * k == 2 * x - grid.spec_size(),
{
    proof {
        lemma_grid_bounds(*grid);
        lemma_grid_even(*grid);
    }
    (x as i32) - ((grid.size() / 2) as i32)
}

/// Computes the mirror image of column (or row) `x`.
pub fn mirror_index(grid: &Grid, x: u32) -> (m: u32)
    requires
        grid.wf(),
        x < grid.spec_size(),
    ensures
        m == mirror(grid.spec_size() as nat, x as nat),
        m < grid.spec_size(),
{
    proof {
        lemma_grid_bounds(*grid);
        lemma_mirror(grid.spec_size() as nat, x as nat);
    }
    (grid.size() - x) % grid.size()
}

/// What the wave-vector kernel reports for one texel.
#[derive(Clone, Copy, PartialEq, Eq, Structural, Debug)]
pub struct WaveVector {
    /// The wave vector `(kx, kz)`.
    pub k: Complex,
    /// Its length.
    pub length: u32,
}

/// What the spectral-density kernel reports for a wave vector inside the band.
#[derive(Clone, Copy, PartialEq, Eq, Structural, Debug)]
pub struct Amplitude {
    /// The reciprocal of the length of the wave vector.
    pub inv_length: u32,
    /// The angular frequency that the dispersion relation gives.
    pub omega: u32,
    /// The initial amplitude `h0(k)`.
    pub h0: Complex,
}

/// One texel of the spectrum: present inside the band, absent outside it.
#[derive(Clone, Copy, PartialEq, Eq, Structural, Debug)]
pub enum BandSample {
    /// The wave vector lies inside the band of the cascade.
    InBand {
        /// The wave vector `(kx, kz)`.
        k: Complex,
        /// The reciprocal of its length.
        inv_length: u32,
        /// The angular frequency that the dispersion relation gives.
        omega: u32,
        /// The initial amplitude `h0(k)`.
        h0: Complex,
    },
    /// The wave vector lies outside the band: the texel is absent and
    /// contributes nothing.
    OutOfBand,
}

/// Whether a wave vector of the given length lies in the band: its length is
/// at most the upper edge and at least the lower edge. A length that is not a
/// number lies in no band.
pub open spec fn in_band(band: CascadeConstants, length: u32) -> bool {
    single_le(length, band.cutoff_high) && single_le(band.cutoff_low, length)
}

/// The wave texel stored for a sample: `(kx, kz, 1/|k|, omega)` inside the
/// band, all zero outside it.
pub open spec fn wave_texel(s: BandSample) -> Texel {
    match s {
        BandSample::InBand { k, inv_length, omega, h0 } => Texel {
            x: k.re,
            y: k.im,
            z: inv_length,
            w: omega,
        },
        BandSample::OutOfBand => Texel::spec_zero(),
    }
}

/// The spectrum texel stored for a sample, before conjugate packing:
/// `(h0.re, h0.im, 0, 1)` inside the band, all zero outside it.
pub open spec fn spectrum_texel(s: BandSample) -> Texel {
    match s {
        BandSample::InBand { k, inv_length, omega, h0 } => Texel {
            x: h0.re,
            y: h0.im,
            z: ZERO_BITS,
            w: ONE_BITS,
        },
        BandSample::OutOfBand => Texel::spec_zero(),
    }
}

/// Whether the kernel `f` accepts every texel.
pub open spec fn wave_vector_total<W: Fn(u32, i32, i32) -> WaveVector>(f: &W) -> bool {
    forall|lengthscale: u32, n: i32, m: i32| call_requires(*f, (lengthscale, n, m))
}

/// Whether the kernel `f` accepts every wave vector of every patch length.
pub open spec fn density_total<D: Fn(u32, WaveVector, Complex) -> Amplitude>(f: &D) -> bool {
    forall|lengthscale: u32, v: WaveVector, noise: Complex|
        call_requires(*f, (lengthscale, v, noise))
}

/// Whether `s` can be the sample of the texel with wave numbers `(n, m)`.
///
/// The kernel `wave_vector` turns the patch length of the band and the wave
/// numbers into the wave vector and its length. Only if that length lies in
/// the band is the kernel `density` asked for the amplitude, which it gets the
/// patch length for as well; otherwise the sample is absent.
pub open spec fn sample_rel<
    W: Fn(u32, i32, i32) -> WaveVector,
    D: Fn(u32, WaveVector, Complex) -> Amplitude,
>(
    wave_vector: &W,
    density: &D,
    band: CascadeConstants,
    n: i32,
    m: i32,
    noise: Complex,
    s: BandSample,
) -> bool {
    exists|v: WaveVector|
        {
            &&& #[trigger] call_ensures(*wave_vector, (band.lengthscale, n, m), v)
            &&& if in_band(band, v.length) {
                exists|amp: Amplitude|
                    {
                        &&& #[trigger] call_ensures(
                            *density,
                            (band.lengthscale, v, noise),
                            amp,
                        )
                        &&& s == (BandSample::InBand {
                            k: v.k,
                            inv_length: amp.inv_length,
                            omega: amp.omega,
                            h0: amp.h0,
                        })
                    }
            } else {
                s == BandSample::OutOfBand
            }
        }
}

/// Whether `wave` and `spectrum` can be what the initial-spectrum pass stores
/// at texel `(x, y)`: the two texels of one sample for the wave numbers of
/// `(x, y)` and the noise stored there.
pub open spec fn initial_texel_rel<
    W: Fn(u32, i32, i32) -> WaveVector,
    D: Fn(u32, WaveVector, Complex) -> Amplitude,
>(
    wave_vector: &W,
    density: &D,
    band: CascadeConstants,
    n: nat,
    noise: Seq<Texel>,
    x: nat,
    y: nat,
    wave: Texel,
    spectrum: Texel,
) -> bool {
    exists|s: BandSample|
        {
            &&& #[trigger] sample_rel(
                wave_vector,
                density,
                band,
                wave_number(n, x) as i32,
                wave_number(n, y) as i32,
                noise[texel_index(n, x, y)].spec_xy(),
                s,
            )
            &&& wave == wave_texel(s)
            &&& spectrum == spectrum_texel(s)
        }
}

/// Whether `waves` and `spectrum` can be the result of the initial-spectrum
/// pass over the whole grid.
pub open spec fn initial_rel<
    W: Fn(u32, i32, i32) -> WaveVector,
    D: Fn(u32, WaveVector, Complex) -> Amplitude,
>(
    wave_vector: &W,
    density: &D,
    band: CascadeConstants,
    n: nat,
    noise: Seq<Texel>,
    waves: Seq<Texel>,
    spectrum: Seq<Texel>,
) -> bool {
    &&& waves.len() == n * n
    &&& spectrum.len() == n * n
    &&& forall|x: nat, y: nat|
        x < n && y < n ==> initial_texel_rel(
            wave_vector,
            density,
            band,
            n,
            noise,
            x,
            y,
            #[trigger] waves[texel_index(n, x, y)],
            spectrum[texel_index(n, x, y)],
        )
}

/// Whether the kernel `f` returns one result only for each input.
pub open spec fn wave_vector_deterministic<W: Fn(u32, i32, i32) -> WaveVector>(f: &W) -> bool {
    forall|lengthscale: u32, n: i32, m: i32, r1: WaveVector, r2: WaveVector|
        call_ensures(*f, (lengthscale, n, m), r1) && call_ensures(*f, (lengthscale, n, m), r2)
            ==> r1 == r2
}

/// Whether the kernel `f` returns one result only for each input.
pub open spec fn density_deterministic<D: Fn(u32, WaveVector, Complex) -> Amplitude>(
    f: &D,
) -> bool {
    forall|lengthscale: u32, v: WaveVector, noise: Complex, r1: Amplitude, r2: Amplitude|
        call_ensures(*f, (lengthscale, v, noise), r1) && call_ensures(
            *f,
            (lengthscale, v, noise),
            r2,
        ) ==> r1 == r2
}

/// With deterministic kernels the sample of a texel is determined by its wave
/// numbers and its noise.
pub proof fn lemma_sample_determined<
    W: Fn(u32, i32, i32) -> WaveVector,
    D: Fn(u32, WaveVector, Complex) -> Amplitude,
>(
    wave_vector: &W,
    density: &D,
    band: CascadeConstants,
    n: i32,
    m: i32,
    noise: Complex,
    a: BandSample,
    b: BandSample,
)
    requires
        wave_vector_deterministic(wave_vector),
        density_deterministic(density),
        sample_rel(wave_vector, density, band, n, m, noise, a),
        sample_rel(wave_vector, density, band, n, m, noise, b),
    ensures
        a == b,
{
}

/// With deterministic kernels the wave vectors and the spectrum are
/// determined by the noise field.
pub proof fn lemma_initial_determined<
    W: Fn(u32, i32, i32) -> WaveVector,
    D: Fn(u32, WaveVector, Complex) -> Amplitude,
>(
    wave_vector: &W,
    density: &D,
    band: CascadeConstants,
    n: nat,
    noise: Seq<Texel>,
    waves_a: Seq<Texel>,
    spectrum_a: Seq<Texel>,
    waves_b: Seq<Texel>,
    spectrum_b: Seq<Texel>,
)
    requires
        wave_vector_deterministic(wave_vector),
        density_deterministic(density),
        initial_rel(wave_vector, density, band, n, noise, waves_a, spectrum_a),
        initial_rel(wave_vector, density, band, n, noise, waves_b, spectrum_b),
    ensures
        waves_a == waves_b,
        spectrum_a == spectrum_b,
{
    assert forall|i: int| 0 <= i < n * n implies waves_a[i] == waves_b[i] && spectrum_a[i]
        == spectrum_b[i] by {
        lemma_index_coordinates(n, n, i);
        let x = (i % (n as int)) as nat;
        let y = (i / (n as int)) as nat;
        let kx = wave_number(n, x) as i32;
        let kz = wave_number(n, y) as i32;
        let noise_here = noise[texel_index(n, x, y)].spec_xy();
        assert(initial_texel_rel(
            wave_vector,
            density,
            band,
            n,
            noise,
            x,
            y,
            waves_a[texel_index(n, x, y)],
            spectrum_a[texel_index(n, x, y)],
        ));
        assert(initial_texel_rel(
            wave_vector,
            density,
            band,
            n,
            noise,
            x,
            y,
            waves_b[texel_index(n, x, y)],
            spectrum_b[texel_index(n, x, y)],
        ));
        let sa = choose|s: BandSample|
            {
                &&& #[trigger] sample_rel(wave_vector, density, band, kx, kz, noise_here, s)
                &&& waves_a[i] == wave_texel(s)
                &&& spectrum_a[i] == spectrum_texel(s)
            };
        let sb = choose|s: BandSample|
            {
                &&& #[trigger] sample_rel(wave_vector, density, band, kx, kz, noise_here, s)
                &&& waves_b[i] == wave_texel(s)
                &&& spectrum_b[i] == spectrum_texel(s)
            };
        lemma_sample_determined(wave_vector, density, band, kx, kz, noise_here, sa, sb);
    }
    assert(waves_a =~= waves_b);
    assert(spectrum_a =~= spectrum_b);
}

/// Band limiting: a texel whose wave vector lies outside the band is zeroed
/// in both textures, whatever the density kernel would have said.
pub proof fn lemma_out_of_band_is_zero<
    W: Fn(u32, i32, i32) -> WaveVector,
    D: Fn(u32, WaveVector, Complex) -> Amplitude,
>(
    wave_vector: &W,
    density: &D,
    band: CascadeConstants,
    n: i32,
    m: i32,
    noise: Complex,
    s: BandSample,
)
    requires
        sample_rel(wave_vector, density, band, n, m, noise, s),
        forall|v: WaveVector|
            call_ensures(*wave_vector, (band.lengthscale, n, m), v) ==> !in_band(band, v.length),
    ensures
        s is OutOfBand,
        spectrum_texel(s) == Texel::spec_zero(),
        wave_texel(s) == Texel::spec_zero(),
{
}

/// Band limiting over the grid: after the initial-spectrum pass, a texel
/// whose wave vector lies outside the band is zero in the wave-vector texture
/// and in the spectrum texture.
pub proof fn lemma_initial_out_of_band<
    W: Fn(u32, i32, i32) -> WaveVector,
    D: Fn(u32, WaveVector, Complex) -> Amplitude,
>(
    wave_vector: &W,
    density: &D,
    band: CascadeConstants,
    n: nat,
    noise: Seq<Texel>,
    waves: Seq<Texel>,
    spectrum: Seq<Texel>,
    x: nat,
    y: nat,
)
    requires
        initial_rel(wave_vector, density, band, n, noise, waves, spectrum),
        x < n,
        y < n,
        forall|v: WaveVector|
            call_ensures(
                *wave_vector,
                (band.lengthscale, wave_number(n, x) as i32, wave_number(n, y) as i32),
                v,
            ) ==> !in_band(band, v.length),
    ensures
        waves[texel_index(n, x, y)] == Texel::spec_zero(),
        spectrum[texel_index(n, x, y)] == Texel::spec_zero(),
{
    assert(initial_texel_rel(
        wave_vector,
        density,
        band,
        n,
        noise,
        x,
        y,
        waves[texel_index(n, x, y)],
        spectrum[texel_index(n, x, y)],
    ));
}

/// Decides whether the texel with wave numbers `(n, m)` is in the band, and
/// asks for its amplitude if it is.
pub fn sample_band<
    W: Fn(u32, i32, i32) -> WaveVector,
    D: Fn(u32, WaveVector, Complex) -> Amplitude,
>(
    band: &CascadeConstants,
    n: i32,
    m: i32,
    noise: Complex,
    wave_vector: &W,
    density: &D,
) -> (s: BandSample)
    requires
        wave_vector_total(wave_vector),
        density_total(density),
    ensures
        sample_rel(wave_vector, density, *band, n, m, noise, s),
{
    let v = wave_vector(band.lengthscale, n, m);
    if at_most(v.length, band.cutoff_high) && at_most(band.cutoff_low, v.length) {
        let amp = density(band.lengthscale, v, noise);
        BandSample::InBand { k: v.k, inv_length: amp.inv_length, omega: amp.omega, h0: amp.h0 }
    } else {
        BandSample::OutOfBand
    }
}

/// Fills the wave-vector and spectrum textures of one cascade, on a grid of
/// more than one texel.
pub fn initial_spectra<
    W: Fn(u32, i32, i32) -> WaveVector,
    D: Fn(u32, WaveVector, Complex) -> Amplitude,
>(
    grid: &Grid,
    band: &CascadeConstants,
    gaussian_tex: &Texture,
    wave_tex: &mut Texture,
    spectrum_tex: &mut Texture,
    wave_vector: &W,
    density: &D,
)
    requires
        grid.wf(),
        grid.spec_size() >= 2,
        gaussian_tex.is_square(grid.spec_size()),
        wave_vector_total(wave_vector),
        density_total(density),
    ensures
        final(wave_tex).is_square(grid.spec_size()),
        final(spectrum_tex).is_square(grid.spec_size()),
        initial_rel(
            wave_vector,
            density,
            *band,
            grid.spec_size() as nat,
            gaussian_tex@,
            final(wave_tex)@,
            final(spectrum_tex)@,
        ),
{
    let n = grid.size();
    let mut waves: Vec<Texel> = Vec::new();
    let mut spectrum: Vec<Texel> = Vec::new();
    let mut y: u32 = 0;
    while y < n
        invariant
            grid.wf(),
            n == grid.spec_size(),
            n >= 2,
            gaussian_tex.is_square(n),
            wave_vector_total(wave_vector),
            density_total(density),
            y <= n,
            waves@.len() == y * n,
            spectrum@.len() == y * n,
            forall|a: nat, b: nat|
                a < n && b < y ==> initial_texel_rel(
                    wave_vector,
                    density,
                    *band,
                    n as nat,
                    gaussian_tex@,
                    a,
                    b,
                    #[trigger] waves@[texel_index(n as nat, a, b)],
                    spectrum@[texel_index(n as nat, a, b)],
                ),
        decreases n - y,
    {
        let mut x: u32 = 0;
        while x < n
            invariant
                grid.wf(),
                n == grid.spec_size(),
                n >= 2,
                gaussian_tex.is_square(n),
                wave_vector_total(wave_vector),
                density_total(density),
                y < n,
                x <= n,
                waves@.len() == y * n + x,
                spectrum@.len() == y * n + x,
                forall|a: nat, b: nat|
                    a < n && b < y ==> initial_texel_rel(
                        wave_vector,
                        density,
                        *band,
                        n as nat,
                        gaussian_tex@,
                        a,
                        b,
                        #[trigger] waves@[texel_index(n as nat, a, b)],
                        spectrum@[texel_index(n as nat, a, b)],
                    ),
                forall|a: nat|
                    a < x ==> initial_texel_rel(
                        wave_vector,
                        density,
                        *band,
                        n as nat,
                        gaussian_tex@,
                        a,
                        y as nat,
                        #[trigger] waves@[texel_index(n as nat, a, y as nat)],
                        spectrum@[texel_index(n as nat, a, y as nat)],
                    ),
            decreases n - x,
        {
            let ghost before = waves@.len();
            let noise = gaussian_tex.read(x, y).xy();
            let sample = sample_band(
                band,
                wave_index(grid, x),
                wave_index(grid, y),
                noise,
                wave_vector,
                density,
            );
            let (wave, h0) = match sample {
                BandSample::InBand { k, inv_length, omega, h0 } => (
                    Texel { x: k.re, y: k.im, z: inv_length, w: omega },
                    Texel { x: h0.re, y: h0.im, z: ZERO_BITS, w: ONE_BITS },
                ),
                BandSample::OutOfBand => (Texel::zero(), Texel::zero()),
            };
            waves.push(wave);
            spectrum.push(h0);
            proof {
                assert forall|a: nat, b: nat| a < n && b < y implies 0 <= (#[trigger] texel_index(
                    n as nat,
                    a,
                    b,
                )) < before by {
                    lemma_texel_index_bound(n as nat, y as nat, a, b);
                    assert(n * y == y * n) by (nonlinear_arith);
                }
                assert(wave == wave_texel(sample) && h0 == spectrum_texel(sample));
                assert(sample_rel(
                    wave_vector,
                    density,
                    *band,
                    wave_number(n as nat, x as nat) as i32,
                    wave_number(n as nat, y as nat) as i32,
                    gaussian_tex@[texel_index(n as nat, x as nat, y as nat)].spec_xy(),
                    sample,
                ));
                assert(initial_texel_rel(
                    wave_vector,
                    density,
                    *band,
                    n as nat,
                    gaussian_tex@,
                    x as nat,
                    y as nat,
                    wave,
                    h0,
                ));
            }
            x = x + 1;
        }
        proof {
            assert((y + 1) * n == y * n + n) by (nonlinear_arith);
        }
        y = y + 1;
    }
    *wave_tex = Texture::from_texels(n, n, waves);
    *spectrum_tex = Texture::from_texels(n, n, spectrum);
}

/// The packed texel for `(x, y)`: `h0` of the texel itself in the first two
/// lanes, and the conjugate of `h0` of the mirrored texel in the last two.
pub open spec fn packed_texel(n: nat, src: Seq<Texel>, x: nat, y: nat) -> Texel {
    Texel::spec_pack(
        src[texel_index(n, x, y)].spec_xy(),
        src[texel_index(n, mirror(n, x), mirror(n, y))].spec_xy().spec_conj(),
    )
}

/// The conjugate-packing pass applied to a whole `n` by `n` spectrum.
pub open spec fn packed(n: nat, src: Seq<Texel>) -> Seq<Texel> {
    Seq::new(
        n * n,
        |i: int| packed_texel(n, src, (i % n as int) as nat, (i / n as int) as nat),
    )
}

/// Entry `(x, y)` of the packed spectrum is the packed texel for `(x, y)`.
pub proof fn lemma_packed_at(n: nat, src: Seq<Texel>, x: nat, y: nat)
    requires
        x < n,
        y < n,
    ensures
        0 <= texel_index(n, x, y) < packed(n, src).len(),
        packed(n, src)[texel_index(n, x, y)] == packed_texel(n, src, x, y),
{
    let i = texel_index(n, x, y);
    lemma_texel_index_bound(n, n, x, y);
    vstd::arithmetic::div_mod::lemma_fundamental_div_mod_converse(
        i,
        n as int,
        y as int,
        x as int,
    );
}

/// Hermitian symmetry of the packed spectrum: the conjugate field stored at a
/// wave vector is the conjugate of the amplitude stored at the negated wave
/// vector, and the other way round.
pub proof fn lemma_packed_is_hermitian(n: nat, src: Seq<Texel>, x: nat, y: nat)
    requires
        x < n,
        y < n,
    ensures
        ({
            let p = packed(n, src);
            let here = p[texel_index(n, x, y)];
            let there = p[texel_index(n, mirror(n, x), mirror(n, y))];
            &&& here.spec_zw() == there.spec_xy().spec_conj()
            &&& there.spec_zw() == here.spec_xy().spec_conj()
            &&& here.spec_xy() == src[texel_index(n, x, y)].spec_xy()
        }),
{
    lemma_mirror(n, x);
    lemma_mirror(n, y);
    lemma_packed_at(n, src, x, y);
    lemma_packed_at(n, src, mirror(n, x), mirror(n, y));
}

/// Pairs every amplitude with the conjugate of its mirror image.
pub fn pack_conjugates(spectrum_tex: &mut Texture)
    requires
        old(spectrum_tex).wf(),
        old(spectrum_tex).spec_width() == old(spectrum_tex).spec_height(),
    ensures
        final(spectrum_tex).is_square(old(spectrum_tex).spec_width()),
        final(spectrum_tex)@ == packed(old(spectrum_tex).spec_width() as nat, old(spectrum_tex)@),
{
    let n = spectrum_tex.width();
    let ghost src = spectrum_tex@;
    let mut texels: Vec<Texel> = Vec::new();
    let mut y: u32 = 0;
    while y < n
        invariant
            spectrum_tex.is_square(n),
            spectrum_tex@ == src,
            y <= n,
            texels@.len() == y * n,
            forall|i: int|
                0 <= i < texels@.len() ==> #[trigger] texels@[i] == packed(n as nat, src)[i],
        decreases n - y,
    {
        let mut x: u32 = 0;
        while x < n
            invariant
                spectrum_tex.is_square(n),
                spectrum_tex@ == src,
                y < n,
                x <= n,
                texels@.len() == y * n + x,
                forall|i: int|
                    0 <= i < texels@.len() ==> #[trigger] texels@[i] == packed(n as nat, src)[i],
            decreases n - x,
        {
            let h0 = spectrum_tex.read(x, y);
            let mx = (n - x) % n;
            let my = (n - y) % n;
            proof {
                lemma_mirror(n as nat, x as nat);
                lemma_mirror(n as nat, y as nat);
            }
            let h0c = spectrum_tex.read(mx, my).xy();
            let out = Texel::pack(h0.xy(), h0c.conj());
            proof {
                lemma_packed_at(n as nat, src, x as nat, y as nat);
            }
            texels.push(out);
            x = x + 1;
        }
        proof {
            assert((y + 1) * n == y * n + n) by (nonlinear_arith);
        }
        y = y + 1;
    }
    proof {
        assert(texels@ =~= packed(n as nat, src));
    }
    *spectrum_tex = Texture::from_texels(n, n, texels);
}

} // verus!
