use ocean_sim::grid::Grid;
use ocean_sim::params::CascadeConstants;
use ocean_sim::spectrum::{
    initial_spectra, mirror_index, pack_conjugates, sample_band, wave_index, Amplitude, BandSample,
    WaveVector,
};
use ocean_sim::texture::{Complex, Texel, Texture, ONE_BITS, ZERO_BITS};

fn bits(v: f32) -> u32 {
    v.to_bits()
}

fn val(b: u32) -> f32 {
    f32::from_bits(b)
}

fn amplitude(x: u32, y: u32) -> (f32, f32) {
    ((x * 3 + y * 11) as f32 * 0.25 - 3.0, (x * 5 + y * 7) as f32 * 0.5 - 4.0)
}

fn raw_spectrum(n: u32) -> Texture {
    let mut tex = Texture::new_storage(n, n);
    for y in 0..n {
        for x in 0..n {
            let (re, im) = amplitude(x, y);
            tex.write(x, y, Texel { x: bits(re), y: bits(im), z: ZERO_BITS, w: ONE_BITS });
        }
    }
    tex
}

#[test]
fn mirror_index_negates_the_wave_number() {
    let grid = Grid::new(8).unwrap();
    let mirrored: Vec<u32> = (0..8).map(|x| mirror_index(&grid, x)).collect();
    assert_eq!(mirrored, vec![0, 7, 6, 5, 4, 3, 2, 1]);
    for x in 1..8 {
        assert_eq!(wave_index(&grid, mirror_index(&grid, x)), -wave_index(&grid, x));
    }
}

#[test]
fn mirror_index_is_its_own_inverse() {
    for size in [1u32, 2, 8, 64] {
        let grid = Grid::new(size).unwrap();
        for x in 0..size {
            assert_eq!(mirror_index(&grid, mirror_index(&grid, x)), x);
        }
    }
}

#[test]
fn wave_index_is_centred() {
    let grid = Grid::new(8).unwrap();
    let numbers: Vec<i32> = (0..8).map(|x| wave_index(&grid, x)).collect();
    assert_eq!(numbers, vec![-4, -3, -2, -1, 0, 1, 2, 3]);
    let smallest = Grid::new(2).unwrap();
    assert_eq!(wave_index(&smallest, 0), -1);
    assert_eq!(wave_index(&smallest, 1), 0);
}

#[test]
fn wave_index_is_the_column_less_half_the_side() {
    for size in [2u32, 4, 16, 128, 32768] {
        let grid = Grid::new(size).unwrap();
        for x in [0, 1, size / 2, size - 1] {
            assert_eq!(2 * wave_index(&grid, x) as i64, 2 * x as i64 - size as i64);
        }
    }
}

#[test]
fn packing_pairs_each_texel_with_the_conjugate_of_its_mirror() {
    let n = 8u32;
    let mut tex = raw_spectrum(n);
    pack_conjugates(&mut tex);
    for y in 0..n {
        for x in 0..n {
            let t = tex.read(x, y);
            let (re, im) = amplitude(x, y);
            let (mre, mim) = amplitude((n - x) % n, (n - y) % n);
            assert_eq!(val(t.x), re);
            assert_eq!(val(t.y), im);
            assert_eq!(val(t.z), mre);
            assert_eq!(val(t.w), -mim);
        }
    }
}

#[test]
fn packed_spectrum_is_hermitian() {
    for n in [1u32, 2, 4, 8, 16] {
        let grid = Grid::new(n).unwrap();
        let mut tex = raw_spectrum(n);
        pack_conjugates(&mut tex);
        for y in 0..n {
            for x in 0..n {
                let here = tex.read(x, y);
                let there = tex.read(mirror_index(&grid, x), mirror_index(&grid, y));
                assert_eq!(here.zw(), there.xy().conj());
                assert_eq!(there.zw(), here.xy().conj());
            }
        }
    }
}

#[test]
fn conj_flips_only_the_sign_of_the_imaginary_part() {
    let c = Complex { re: bits(1.5), im: bits(-2.25) };
    assert_eq!(c.conj(), Complex { re: bits(1.5), im: bits(2.25) });
    assert_eq!(c.conj().conj(), c);
    assert_eq!(Complex::zero().conj(), Complex { re: bits(0.0), im: bits(-0.0) });
}

fn wave_vector(lengthscale: u32, n: i32, m: i32) -> WaveVector {
    let dk = 1.0 / lengthscale as f32;
    let (kx, kz) = (n as f32 * dk, m as f32 * dk);
    WaveVector { k: Complex { re: bits(kx), im: bits(kz) }, length: bits((kx * kx + kz * kz).sqrt()) }
}

fn density(lengthscale: u32, v: WaveVector, noise: Complex) -> Amplitude {
    let length = val(v.length);
    assert!(length > 0.0, "asked for the amplitude of the zero wave vector");
    let gain = 1.0 + lengthscale as f32;
    Amplitude {
        inv_length: bits(1.0 / length),
        omega: bits(length.sqrt()),
        h0: Complex { re: bits(val(noise.re) * gain), im: bits(val(noise.im) * gain) },
    }
}

fn band(lengthscale: u32, low: f32, high: f32) -> CascadeConstants {
    CascadeConstants {
        lengthscale,
        cutoff_low: bits(low),
        cutoff_high: bits(high),
        scale_factor: bits(1.0),
    }
}

#[test]
fn initial_spectra_stores_amplitudes_inside_the_band_and_zero_outside() {
    let n = 8u32;
    let grid = Grid::new(n).unwrap();
    let noise = raw_spectrum(n);
    let mut waves = Texture::new_storage(1, 1);
    let mut spectrum = Texture::new_storage(1, 1);
    initial_spectra(
        &grid,
        &band(1, 1.0, 2.0),
        &noise,
        &mut waves,
        &mut spectrum,
        &wave_vector,
        &density,
    );
    assert_eq!(waves.width(), n);
    assert_eq!(spectrum.height(), n);
    let mut inside = 0;
    for y in 0..n {
        for x in 0..n {
            let (kx, kz) = (x as i32 - 4, y as i32 - 4);
            let length = ((kx * kx + kz * kz) as f32).sqrt();
            let w = waves.read(x, y);
            let s = spectrum.read(x, y);
            if length >= 1.0 && length <= 2.0 {
                let (re, im) = amplitude(x, y);
                assert_eq!(val(w.x), kx as f32);
                assert_eq!(val(w.y), kz as f32);
                assert_eq!(val(w.z), 1.0 / length);
                assert_eq!(val(w.w), length.sqrt());
                assert_eq!(s, Texel { x: bits(re * 2.0), y: bits(im * 2.0), z: ZERO_BITS, w: ONE_BITS });
                inside += 1;
            } else {
                assert_eq!(w, Texel::zero());
                assert_eq!(s, Texel::zero());
            }
        }
    }
    assert_eq!(inside, 12);
}

#[test]
fn band_edges_belong_to_the_band() {
    let b = band(1, 1.0, 2.0);
    let at = |n: i32, m: i32| sample_band(&b, n, m, Complex::zero(), &wave_vector, &density);
    assert!(matches!(at(1, 0), BandSample::InBand { .. }));
    assert!(matches!(at(0, -2), BandSample::InBand { .. }));
    assert!(matches!(at(1, 1), BandSample::InBand { .. }));
    assert!(matches!(at(0, 0), BandSample::OutOfBand));
    assert!(matches!(at(2, 1), BandSample::OutOfBand));
    assert_eq!(at(3, -4), BandSample::OutOfBand);
}

#[test]
fn zero_wave_vector_is_never_handed_to_the_density() {
    let b = band(20, 0.00000001, 1.0);
    assert!(matches!(
        sample_band(&b, 0, 0, Complex::zero(), &wave_vector, &density),
        BandSample::OutOfBand
    ));
}

#[test]
fn length_that_is_not_a_number_lies_in_no_band() {
    let b = band(1, 0.0, f32::INFINITY);
    let broken = |_: u32, _: i32, _: i32| WaveVector {
        k: Complex::zero(),
        length: bits(f32::NAN),
    };
    assert!(matches!(
        sample_band(&b, 1, 1, Complex::zero(), &broken, &density),
        BandSample::OutOfBand
    ));
    let edges = band(1, f32::NAN, 5.0);
    assert!(matches!(
        sample_band(&edges, 1, 1, Complex::zero(), &wave_vector, &density),
        BandSample::OutOfBand
    ));
}

#[test]
fn initial_spectra_hands_the_patch_length_to_both_kernels() {
    let n = 8u32;
    let grid = Grid::new(n).unwrap();
    let noise = raw_spectrum(n);
    let mut waves = Texture::new_storage(n, n);
    let mut short = Texture::new_storage(n, n);
    let mut long = Texture::new_storage(n, n);
    initial_spectra(&grid, &band(1, 1.0, 1.0), &noise, &mut waves, &mut short, &wave_vector, &density);
    initial_spectra(&grid, &band(2, 0.5, 0.5), &noise, &mut waves, &mut long, &wave_vector, &density);
    let (re, _) = amplitude(5, 4);
    assert_eq!(val(short.read(5, 4).x), re * 2.0);
    assert_eq!(val(long.read(5, 4).x), re * 3.0);
    assert_eq!(val(waves.read(5, 4).x), 0.5);
    let count = |tex: &Texture| (0..tex.len()).filter(|&i| tex.fetch(i) != Texel::zero()).count();
    assert_eq!(count(&short), 4);
    assert_eq!(count(&long), 4);
    assert_eq!(count(&waves), 4);
}

#[test]
fn texture_write_changes_one_texel_only() {
    let mut tex = Texture::new_storage(3, 2);
    assert_eq!(tex.len(), 6);
    let t = Texel { x: 1, y: 2, z: 3, w: 4 };
    tex.write(2, 1, t);
    for y in 0..2 {
        for x in 0..3 {
            let expected = if (x, y) == (2, 1) { t } else { Texel::zero() };
            assert_eq!(tex.read(x, y), expected);
        }
    }
    assert_eq!(tex.fetch(5), t);
    let copy = Texture::from_texels(3, 2, (0..6).map(|i| tex.fetch(i)).collect());
    assert_eq!(copy.read(2, 1), t);
}
