use std::f32::consts::PI;

use ocean_sim::cascade::{foam, Cascade, DeltaTerms, Deltas, Evolved};
use ocean_sim::compositor::composite;
use ocean_sim::fft::FFTData;
use ocean_sim::grid::Grid;
use ocean_sim::params::SimConstants;
use ocean_sim::schedule::{plan_frame, Field, Pass};
use ocean_sim::simdata::SimData;
use ocean_sim::simulation::Simulation;
use ocean_sim::spectrum::{initial_spectra, pack_conjugates, Amplitude, WaveVector};
use ocean_sim::texture::{Complex, Texel, Texture, Vec3, ONE_BITS, ZERO_BITS};

#[derive(Clone, Copy)]
struct Params {
    gravity: f32,
    depth: f32,
    wind_speed: f32,
    wind_offset: f32,
    fetch: f32,
    beta: f32,
    gamma: f32,
    swell: f32,
    integration_step: f32,
    choppiness: f32,
    foam_bias: f32,
    foam_decay: f32,
}

fn params(wind_speed: f32) -> Params {
    Params {
        gravity: 9.81,
        depth: 500.0,
        wind_speed,
        wind_offset: std::f32::consts::FRAC_PI_4,
        fetch: 8000.0,
        beta: 5.0 / 4.0,
        gamma: 3.3,
        swell: 0.1,
        integration_step: 0.01,
        choppiness: 0.6,
        foam_bias: 0.92,
        foam_decay: 0.3,
    }
}

/// Three bands that all hold wave vectors of an eight by eight grid.
fn consts() -> SimConstants {
    SimConstants {
        size: 8,
        lengthscale1: 12,
        lengthscale2: 8,
        ..SimConstants::default()
    }
}

fn f(bits: u32) -> f32 {
    f32::from_bits(bits)
}

fn c(re: f32, im: f32) -> Complex {
    Complex { re: re.to_bits(), im: im.to_bits() }
}

fn mul(a: (f32, f32), b: (f32, f32)) -> (f32, f32) {
    (a.0 * b.0 - a.1 * b.1, a.0 * b.1 + a.1 * b.0)
}

fn gaussian_number(u1: u64, u2: u64) -> Complex {
    let scale = 1.0 / (1u64 << 53) as f64;
    let u1 = (u1 as f64 * scale) as f32;
    let u2 = (u2 as f64 * scale) as f32;
    c(
        (-2.0 * u1.ln()).sqrt() * (2.0 * PI * u2).cos(),
        (-2.0 * u1.ln()).sqrt() * (2.0 * PI * u2).sin(),
    )
}

fn butterfly(top: Complex, bottom: Complex, k: u32, n: u32) -> Complex {
    let angle = -2.0 * PI * k as f32 / n as f32;
    let t = mul((angle.cos(), angle.sin()), (f(bottom.re), f(bottom.im)));
    c(f(top.re) + t.0, f(top.im) + t.1)
}

fn unit(v: u32) -> u32 {
    v
}

fn dispersion_relation(k: f32, p: &Params) -> f32 {
    (p.gravity * k * (k * p.depth).min(20.0).tanh()).sqrt()
}

fn dispersion_derivative(k: f32, p: &Params) -> f32 {
    let tanh = (p.depth * k).min(20.0).tanh();
    let sech = 1.0 / (p.depth * k).min(20.0).cosh();
    (p.gravity * (tanh + p.depth * k * sech * sech)) / (2.0 * (p.gravity * k * tanh).sqrt())
}

fn angle(k: (f32, f32), offset: f32) -> f32 {
    let mut angle: f32 = (k.1).atan2(k.0) - offset;
    angle = (angle + PI) - 2.0 * PI * ((angle + PI) / (2.0 * PI)).floor();
    if angle < 0.0 {
        angle += 2.0 * PI;
    }
    angle - PI
}

fn jonswap(omega: f32, omega_p: f32, p: &Params) -> f32 {
    let sigma: f32 = if omega <= omega_p { 0.07 } else { 0.09 };
    let alpha = 0.076 * ((p.wind_speed * p.wind_speed) / (p.fetch * p.gravity)).powf(0.22);
    let r =
        (-1.0 * (omega - omega_p) * (omega - omega_p) / (2.0 * omega_p * omega_p * sigma * sigma))
            .exp();
    alpha * p.gravity * p.gravity / (omega * omega * omega * omega * omega)
        * (-p.beta * (omega_p / omega).powf(4.0)).exp()
        * p.gamma.powf(r)
}

fn depth_attenuation(omega: f32, p: &Params) -> f32 {
    let omega_h = omega * (p.depth / p.gravity).sqrt();
    if omega_h <= 1.0 {
        0.5 * omega_h * omega_h
    } else if omega_h < 2.0 {
        1.0 - 0.5 * (2.0 - omega_h) * (2.0 - omega_h)
    } else {
        1.0
    }
}

fn donelan_banner(omega: f32, omega_p: f32, theta: f32) -> f32 {
    let k = omega / omega_p;
    let beta_s: f32 = if k < 0.95 {
        2.61 * k.abs().powf(1.3)
    } else if k <= 1.6 {
        2.28 * k.abs().powf(-1.3)
    } else {
        10.0_f32.powf(-0.4 + 0.8393 * (-0.567 * (k * k).ln()).exp())
    };
    let sech = 1.0 / (beta_s * theta).cosh();
    beta_s / (2.0 * (beta_s * PI).tanh()) * sech * sech
}

fn normalisation_factor(s: f32) -> f32 {
    let s2 = s * s;
    let s3 = s2 * s;
    let s4 = s3 * s;
    if s < 5.0 {
        -0.000564 * s4 + 0.00776 * s3 - 0.044 * s2 + 0.192 * s + 0.163
    } else {
        -4.80e-08 * s4 + 1.07e-05 * s3 - 9.53e-04 * s2 + 5.90e-02 * s + 3.93e-01
    }
}

fn directional_spread(omega: f32, omega_p: f32, theta: f32, p: &Params) -> f32 {
    let s = 16.0 * (omega_p / omega).tanh() * p.swell * p.swell;
    let swell = normalisation_factor(s) * (theta / 2.0).cos().abs().powf(2.0 * s);
    donelan_banner(omega, omega_p, theta) * swell
}

fn final_spread(omega: f32, omega_p: f32, theta: f32, p: &Params) -> f32 {
    let mut sum = 0.0;
    let steps = 2.0 * PI / p.integration_step;
    for i in 0..steps as usize {
        let angle = i as f32 * p.integration_step - PI;
        sum += directional_spread(omega, omega_p, angle, p) * p.integration_step;
    }
    directional_spread(omega, omega_p, theta, p) * (1.0 / sum)
}

fn wave_vector(lengthscale: u32, n: i32, m: i32) -> WaveVector {
    let dk: f32 = 2.0 * PI / lengthscale as f32;
    let k = (n as f32 * dk, m as f32 * dk);
    WaveVector { k: c(k.0, k.1), length: (k.0 * k.0 + k.1 * k.1).sqrt().to_bits() }
}

fn spectral_density(p: &Params, lengthscale: u32, v: WaveVector, noise: Complex) -> Amplitude {
    let dk: f32 = 2.0 * PI / lengthscale as f32;
    let k = (f(v.k.re), f(v.k.im));
    let k_length = f(v.length);
    let theta = angle(k, p.wind_offset);
    let omega = dispersion_relation(k_length, p);
    let domega_dk = dispersion_derivative(k_length, p);
    let omega_peak = 22.0 * ((p.gravity * p.gravity) / (p.wind_speed * p.fetch)).powf(1.0 / 3.0);
    let tma = jonswap(omega, omega_peak, p) * depth_attenuation(omega, p);
    let spread = final_spread(omega, omega_peak, theta, p);
    let spectrum = 2.0 * tma * spread * domega_dk.abs() * dk * dk / k_length;
    let amp = 1.0 / 2.0_f32.sqrt();
    Amplitude {
        inv_length: (1.0 / k_length).to_bits(),
        omega: omega.to_bits(),
        h0: c(amp * f(noise.re) * spectrum.sqrt(), amp * f(noise.im) * spectrum.sqrt()),
    }
}

fn density(p: &Params) -> impl Fn(u32, WaveVector, Complex) -> Amplitude {
    let p = *p;
    move |lengthscale, v, noise| spectral_density(&p, lengthscale, v, noise)
}

fn evolve(time: f32, wave: Texel, spectrum: Texel) -> Evolved {
    let (kx, kz, inv_length, omega) = (f(wave.x), f(wave.y), f(wave.z), f(wave.w));
    let phase = omega * time;
    let exponent = (phase.cos(), phase.sin());
    let h0 = mul((f(spectrum.x), f(spectrum.y)), exponent);
    let h0c = mul((f(spectrum.z), f(spectrum.w)), (exponent.0, -exponent.1));
    let h = (h0.0 + h0c.0, h0.1 + h0c.1);
    let ih = (-h.1, h.0);
    Evolved {
        dx: c(-ih.0 * kx * inv_length, -ih.1 * kx * inv_length),
        dy: c(h.0, h.1),
        dz: c(-ih.0 * kz * inv_length, -ih.1 * kz * inv_length),
        nx: c(ih.0 * kx, ih.1 * kx),
        nz: c(ih.0 * kz, ih.1 * kz),
        j_xx: c(-h.0 * kx * kx * inv_length, -h.1 * kx * kx * inv_length),
        j_zz: c(-h.0 * kz * kz * inv_length, -h.1 * kz * kz * inv_length),
        j_xz: c(-h.0 * kx * kz * inv_length, -h.1 * kx * kz * inv_length),
    }
}

fn process_deltas(p: &Params, deltatime: f32, d: Deltas, foam_prev: u32) -> DeltaTerms {
    let (nx, nz) = (-f(d.nx), -f(d.nz));
    let norm = (nx * nx + 1.0 + nz * nz).sqrt();
    let jxx = 1.0_f32 + p.choppiness * f(d.j_xx);
    let jzz = 1.0_f32 + p.choppiness * f(d.j_zz);
    let jxz = p.choppiness * f(d.j_xz);
    let jacobian = -(jxx * jzz - jxz * jxz) + p.foam_bias;
    let decayed = f(foam_prev) - deltatime * p.foam_decay / jacobian.max(0.5);
    DeltaTerms {
        displacement: Vec3 {
            x: (f(d.dx) * p.choppiness).to_bits(),
            y: d.dy,
            z: (f(d.dz) * p.choppiness).to_bits(),
        },
        normal: Vec3 {
            x: (nx / norm).to_bits(),
            y: (1.0 / norm).to_bits(),
            z: (nz / norm).to_bits(),
        },
        jacobian: jacobian.to_bits(),
        decayed: decayed.to_bits(),
        injected: (decayed + jacobian).to_bits(),
    }
}

fn texels(tex: &Texture) -> Vec<Texel> {
    (0..tex.len()).map(|i| tex.fetch(i)).collect()
}

fn run_frames(seed: u32, frames: u32, time_step: f32) -> Simulation {
    let grid = Grid::new(8).unwrap();
    let p = params(10.0);
    let consts = consts();
    let mut sim = Simulation::new(grid, seed, &gaussian_number);
    for frame in 0..frames {
        let time = frame as f32 * time_step;
        sim.frame(
            frame == 0,
            &consts,
            &wave_vector,
            &density(&p),
            &|wave, spectrum| evolve(time, wave, spectrum),
            &butterfly,
            &unit,
            &|d, foam| process_deltas(&p, time_step, d, foam),
        );
        sim.end_frame(&consts, &consts);
    }
    sim
}

#[test]
fn noise_field_pairs_consecutive_draws() {
    let grid = Grid::new(4).unwrap();
    let recorded = |u1: u64, u2: u64| Complex { re: u1 as u32, im: u2 as u32 };
    let tex = SimData::gaussian_noise(&grid, 1, &recorded);
    assert_eq!(tex.len(), 16);
    let mut rng = ocean_sim::rng::Xoshiro256plus::new(1);
    for i in 0..16 {
        let u1 = rng.next();
        let u2 = rng.next();
        assert_eq!(tex.fetch(i), Texel { x: u1 as u32, y: u2 as u32, z: ZERO_BITS, w: ONE_BITS });
    }
    assert_eq!(tex.fetch(0).x, 98365751617700u64 as u32);
    assert_eq!(tex.fetch(0).y, 7979946564159125u64 as u32);
}

#[test]
fn identical_seeds_give_identical_noise_fields() {
    let grid = Grid::new(8).unwrap();
    let a = SimData::new(&grid, 7, &gaussian_number);
    let b = SimData::new(&grid, 7, &gaussian_number);
    let other = SimData::new(&grid, 8, &gaussian_number);
    assert_eq!(texels(&a.gaussian_tex), texels(&b.gaussian_tex));
    assert_ne!(texels(&a.gaussian_tex), texels(&other.gaussian_tex));
    for t in texels(&a.gaussian_tex) {
        assert!(f(t.x).is_finite() && f(t.y).is_finite());
    }
}

#[test]
fn identical_seeds_give_identical_surfaces_bit_for_bit() {
    let a = run_frames(3, 3, 0.125);
    let b = run_frames(3, 3, 0.125);
    assert_eq!(texels(&a.cascade0.initial_spectrum_tex), texels(&b.cascade0.initial_spectrum_tex));
    assert_eq!(texels(&a.cascade0.v_displacement), texels(&b.cascade0.v_displacement));
    assert_eq!(texels(&a.cascade0.displacement_map), texels(&b.cascade0.displacement_map));
    assert_eq!(texels(&a.cascade1.normal_map), texels(&b.cascade1.normal_map));
    assert_eq!(texels(&a.cascade2.foam_map), texels(&b.cascade2.foam_map));
    let c = run_frames(4, 3, 0.125);
    assert_ne!(texels(&a.cascade0.displacement_map), texels(&c.cascade0.displacement_map));
}

#[test]
fn evolved_height_at_time_zero_is_the_sum_of_the_packed_pair() {
    let grid = Grid::new(8).unwrap();
    let p = params(10.0);
    let data = SimData::new(&grid, 1, &gaussian_number);
    let mut cascade = Cascade::new(&grid);
    let consts = consts();
    initial_spectra(
        &grid,
        &consts.cascade(0),
        &data.gaussian_tex,
        &mut cascade.wave_tex,
        &mut cascade.initial_spectrum_tex,
        &wave_vector,
        &density(&p),
    );
    pack_conjugates(&mut cascade.initial_spectrum_tex);
    cascade.evolve_spectra(&grid, &|wave, spectrum| evolve(0.0, wave, spectrum));
    let mut in_band = 0;
    for y in 0..8 {
        for x in 0..8 {
            let packed = cascade.initial_spectrum_tex.read(x, y);
            let height = cascade.v_displacement.read(x, y);
            assert!(f(packed.x).is_finite() && f(packed.y).is_finite());
            assert_eq!(f(height.x), f(packed.x) + f(packed.z));
            assert_eq!(f(height.y), f(packed.y) + f(packed.w));
            if f(packed.x) != 0.0 {
                in_band += 1;
            }
        }
    }
    assert_eq!(in_band, 36);
    let centre = cascade.initial_spectrum_tex.read(4, 4);
    assert_eq!(f(centre.x), 0.0);
    assert_eq!(cascade.wave_tex.read(4, 4).z, ZERO_BITS);
}

#[test]
fn evolved_fields_travel_in_fixed_lanes() {
    let grid = Grid::new(2).unwrap();
    let mut cascade = Cascade::new(&grid);
    let numbered = |wave: Texel, _h0: Texel| {
        let lane = |i: u32| Complex { re: wave.x + i, im: wave.x + i + 100 };
        Evolved {
            dx: lane(1),
            dy: lane(2),
            dz: lane(3),
            nx: lane(4),
            nz: lane(5),
            j_xx: lane(6),
            j_zz: lane(7),
            j_xz: lane(8),
        }
    };
    cascade.wave_tex.write(1, 1, Texel { x: 1000, y: 0, z: 0, w: 0 });
    cascade.evolve_spectra(&grid, &numbered);
    assert_eq!(cascade.h_displacement.read(0, 0), Texel { x: 1, y: 101, z: 3, w: 103 });
    assert_eq!(cascade.v_displacement.read(0, 0), Texel { x: 2, y: 102, z: 8, w: 108 });
    assert_eq!(cascade.h_slope.read(0, 0), Texel { x: 4, y: 104, z: 5, w: 105 });
    assert_eq!(cascade.jacobian.read(0, 0), Texel { x: 6, y: 106, z: 7, w: 107 });
    assert_eq!(cascade.h_displacement.read(1, 1), Texel { x: 1001, y: 1101, z: 1003, w: 1103 });
}

#[test]
fn delta_processing_unpacks_the_lanes_and_stores_three_maps() {
    let grid = Grid::new(2).unwrap();
    let mut cascade = Cascade::new(&grid);
    cascade.h_displacement.write(1, 0, Texel { x: 1, y: 3, z: 0, w: 0 });
    cascade.v_displacement.write(1, 0, Texel { x: 2, y: 8, z: 0, w: 0 });
    cascade.h_slope.write(1, 0, Texel { x: 4, y: 5, z: 0, w: 0 });
    cascade.jacobian.write(1, 0, Texel { x: 6, y: 7, z: 0, w: 0 });
    cascade.foam_map.write(1, 0, Texel { x: 9, y: 9, z: 9, w: ONE_BITS });
    let echo = |d: Deltas, foam: u32| DeltaTerms {
        displacement: Vec3 { x: d.dx, y: d.dy, z: d.dz },
        normal: Vec3 { x: d.nx * 10 + d.j_xx, y: d.j_xz, z: d.nz * 10 + d.j_zz },
        jacobian: 1.0_f32.to_bits(),
        decayed: foam + 0x4000_0000,
        injected: 0,
    };
    cascade.process_deltas(&grid, &echo);
    assert_eq!(cascade.displacement_map.read(1, 0), Texel { x: 1, y: 2, z: 3, w: ONE_BITS });
    assert_eq!(cascade.normal_map.read(1, 0), Texel { x: 46, y: 8, z: 57, w: ONE_BITS });
    let kept = 0x4000_0009;
    assert_eq!(cascade.foam_map.read(1, 0), Texel { x: kept, y: kept, z: kept, w: ONE_BITS });
    assert_eq!(cascade.foam_map.read(0, 0).x, 0x4000_0000);
    cascade.foam_map.write(1, 0, Texel { x: 5, y: 0, z: 0, w: 0 });
    cascade.process_deltas(&grid, &echo);
    assert_eq!(cascade.foam_map.read(1, 0).x, 0x4000_0005);
}

#[test]
fn foam_rule_takes_the_larger_of_signal_and_accumulation() {
    let b = |v: f32| v.to_bits();
    assert_eq!(foam(b(0.5), b(2.0), b(2.5)), b(2.0));
    assert_eq!(foam(b(0.5), b(0.25), b(0.75)), b(0.5));
    assert_eq!(foam(b(-0.5), b(2.0), b(1.5)), b(1.5));
    assert_eq!(foam(b(-0.5), b(0.25), b(-0.25)), b(-0.25));
    assert_eq!(foam(b(-0.5), b(0.25), b(-0.75)), b(-0.5));
    assert_eq!(f(foam(b(0.0), b(3.0), b(7.0))), 7.0);
    assert_eq!(f(foam(b(-0.0), b(3.0), b(7.0))), 7.0);
    assert_eq!(foam(b(f32::NAN), b(3.0), b(7.0)), b(3.0));
    assert_eq!(foam(b(1.0), b(f32::NAN), b(7.0)), b(1.0));
}

#[test]
fn foam_rule_agrees_with_the_formula_on_numbers() {
    let mut state = 0x9e37_79b9_u32;
    let mut next = || {
        state ^= state << 13;
        state ^= state >> 17;
        state ^= state << 5;
        (state % 2001) as f32 / 250.0 - 4.0
    };
    for _ in 0..2000 {
        let (jacobian, decayed) = (next(), next());
        let mut accumulation = decayed;
        if jacobian <= 0.0 {
            accumulation += jacobian;
        }
        let expected = jacobian.max(accumulation);
        let got = foam(jacobian.to_bits(), decayed.to_bits(), (decayed + jacobian).to_bits());
        assert_eq!(f(got), expected);
        assert!(f(got) >= jacobian);
    }
}

#[test]
fn foam_above_a_constant_jacobian_decays_every_frame() {
    let grid = Grid::new(2).unwrap();
    let mut p = params(10.0);
    p.foam_bias = 1.5;
    p.foam_decay = 0.5;
    let mut cascade = Cascade::new(&grid);
    for i in 0..2 {
        for j in 0..2 {
            cascade.foam_map.write(i, j, Texel { x: 2.0_f32.to_bits(), y: 0, z: 0, w: 0 });
        }
    }
    let step = 0.25_f32;
    let mut previous = 2.0_f32;
    for frame in 1..=4 {
        cascade.process_deltas(&grid, &|d, foam| process_deltas(&p, step, d, foam));
        let foam = f(cascade.foam_map.read(1, 1).x);
        assert!(foam < previous);
        assert_eq!(foam, 2.0 - frame as f32 * 0.25);
        previous = foam;
    }
    for _ in 0..20 {
        cascade.process_deltas(&grid, &|d, foam| process_deltas(&p, step, d, foam));
    }
    assert_eq!(f(cascade.foam_map.read(0, 1).x), 0.5);
}

#[test]
fn spectrum_energy_grows_with_wind_speed() {
    let grid = Grid::new(8).unwrap();
    let data = SimData::new(&grid, 1, &gaussian_number);
    let mut previous = 0.0_f64;
    for wind in [2.0_f32, 5.0, 10.0, 15.0] {
        let p = params(wind);
        let mut waves = Texture::new_storage(8, 8);
        let mut spectrum = Texture::new_storage(8, 8);
        let consts = consts();
        initial_spectra(
            &grid,
            &consts.cascade(0),
            &data.gaussian_tex,
            &mut waves,
            &mut spectrum,
            &wave_vector,
            &density(&p),
        );
        let energy: f64 = texels(&spectrum)
            .iter()
            .map(|t| (f(t.x) as f64).powi(2) + (f(t.y) as f64).powi(2))
            .sum();
        assert!(energy.is_finite());
        assert!(energy > previous);
        previous = energy;
    }
}

fn weighted(t: Texel, factor: u32) -> Texel {
    let s = f(factor);
    Texel {
        x: (f(t.x) * s).to_bits(),
        y: (f(t.y) * s).to_bits(),
        z: (f(t.z) * s).to_bits(),
        w: (f(t.w) * s).to_bits(),
    }
}

fn blend(sf: [f32; 3]) -> SimConstants {
    SimConstants {
        lengthscale0_sf: sf[0].to_bits(),
        lengthscale1_sf: sf[1].to_bits(),
        lengthscale2_sf: sf[2].to_bits(),
        ..consts()
    }
}

fn sum(a: Texel, b: Texel) -> Texel {
    Texel {
        x: (f(a.x) + f(b.x)).to_bits(),
        y: (f(a.y) + f(b.y)).to_bits(),
        z: (f(a.z) + f(b.z)).to_bits(),
        w: (f(a.w) + f(b.w)).to_bits(),
    }
}

#[test]
fn composite_is_the_weighted_sum_of_the_cascades() {
    let sim = run_frames(5, 2, 0.5);
    let sf = [0.8_f32, 1.0, 0.25];
    for y in 0..8 {
        for x in 0..8 {
            let out = composite(&sim, &blend(sf), x, y, &weighted, &sum);
            let d0 = sim.cascade0.displacement_map.read(x, y);
            let d1 = sim.cascade1.displacement_map.read(x, y);
            let d2 = sim.cascade2.displacement_map.read(x, y);
            assert_eq!(f(out.displacement.x), f(d0.x) * 0.8 + f(d1.x) * 1.0 + f(d2.x) * 0.25);
            assert_eq!(f(out.displacement.y), f(d0.y) * 0.8 + f(d1.y) * 1.0 + f(d2.y) * 0.25);
            assert_eq!(f(out.displacement.z), f(d0.z) * 0.8 + f(d1.z) * 1.0 + f(d2.z) * 0.25);
            let n0 = sim.cascade0.normal_map.read(x, y);
            let n1 = sim.cascade1.normal_map.read(x, y);
            let n2 = sim.cascade2.normal_map.read(x, y);
            assert_eq!(f(out.normal.y), f(n0.y) * 0.8 + f(n1.y) * 1.0 + f(n2.y) * 0.25);
            let f0 = sim.cascade0.foam_map.read(x, y);
            let f1 = sim.cascade1.foam_map.read(x, y);
            let f2 = sim.cascade2.foam_map.read(x, y);
            assert_eq!(f(out.foam.x), f(f0.x) * 0.8 + f(f1.x) * 1.0 + f(f2.x) * 0.25);
        }
    }
}

#[test]
fn cascade_with_zero_scale_contributes_nothing() {
    let mut sim = run_frames(5, 1, 0.5);
    let sf = [0.5_f32, 2.0, 0.0];
    let before: Vec<_> =
        (0..8).map(|x| composite(&sim, &blend(sf), x, 3, &weighted, &sum)).collect();
    for x in 0..8 {
        sim.cascade2.displacement_map.write(x, 3, Texel {
            x: 123.0_f32.to_bits(),
            y: (-55.5_f32).to_bits(),
            z: 7.0_f32.to_bits(),
            w: ONE_BITS,
        });
    }
    for x in 0..8u32 {
        let after = composite(&sim, &blend(sf), x, 3, &weighted, &sum);
        let d0 = sim.cascade0.displacement_map.read(x, 3);
        let d1 = sim.cascade1.displacement_map.read(x, 3);
        assert_eq!(f(after.displacement.y), f(before[x as usize].displacement.y));
        assert_eq!(f(after.displacement.y), f(d0.y) * 0.5 + f(d1.y) * 2.0);
    }
}

#[test]
fn spectrum_is_rebuilt_only_after_a_change_of_parameters() {
    let grid = Grid::new(4).unwrap();
    let mut sim = Simulation::new(grid, 1, &gaussian_number);
    assert!(sim.consts_changed);
    let calls = std::cell::Cell::new(0u32);
    let p = params(10.0);
    let consts = consts();
    let run = |sim: &mut Simulation, calls: &std::cell::Cell<u32>| {
        sim.frame(
            false,
            &consts,
            &|lengthscale, n, m| {
                calls.set(calls.get() + 1);
                wave_vector(lengthscale, n, m)
            },
            &density(&p),
            &|wave, spectrum| evolve(0.5, wave, spectrum),
            &butterfly,
            &unit,
            &|d, foam| process_deltas(&p, 0.1, d, foam),
        );
    };
    run(&mut sim, &calls);
    assert_eq!(calls.get(), 3 * 16);
    sim.end_frame(&consts, &consts);
    assert!(!sim.consts_changed);
    run(&mut sim, &calls);
    assert_eq!(calls.get(), 3 * 16);
    let mut windier = consts;
    windier.wind_speed = 12.5_f32.to_bits();
    sim.end_frame(&consts, &windier);
    assert!(sim.consts_changed);
    run(&mut sim, &calls);
    assert_eq!(calls.get(), 6 * 16);
}

#[test]
fn every_cascade_is_limited_to_its_own_band() {
    let sim = run_frames(1, 1, 0.0);
    let consts = consts();
    let cascades = [&sim.cascade0, &sim.cascade1, &sim.cascade2];
    for (pc, cascade) in cascades.iter().enumerate() {
        let band = consts.cascade(pc as u32);
        let (low, high) = (f(band.cutoff_low), f(band.cutoff_high));
        let mut inside = 0;
        for y in 0..8 {
            for x in 0..8 {
                let wave = cascade.wave_tex.read(x, y);
                let v = wave_vector(band.lengthscale, x as i32 - 4, y as i32 - 4);
                let length = f(v.length);
                let packed = cascade.initial_spectrum_tex.read(x, y);
                if length >= low && length <= high {
                    assert_eq!(wave.x, v.k.re);
                    assert_eq!(wave.y, v.k.im);
                    assert_eq!(f(wave.z), 1.0 / length);
                    assert!(f(packed.x) != 0.0);
                    inside += 1;
                } else {
                    assert_eq!(wave, Texel::zero());
                    assert_eq!(f(packed.x), 0.0);
                    assert_eq!(f(packed.y), 0.0);
                }
            }
        }
        assert!(inside > 0);
    }
}

#[test]
fn single_cascade_calls_leave_the_other_cascades_alone() {
    let grid = Grid::new(4).unwrap();
    let p = params(10.0);
    let consts = consts();
    let mut sim = Simulation::new(grid, 1, &gaussian_number);
    sim.compute_initial(1, &consts, &wave_vector, &density(&p));
    assert_eq!(texels(&sim.cascade0.initial_spectrum_tex), vec![Texel::zero(); 16]);
    assert_eq!(texels(&sim.cascade2.wave_tex), vec![Texel::zero(); 16]);
    assert_ne!(texels(&sim.cascade1.wave_tex), vec![Texel::zero(); 16]);
    sim.compute_cascade(
        1,
        &|wave, spectrum| evolve(0.0, wave, spectrum),
        &butterfly,
        &unit,
        &|d, foam| process_deltas(&p, 0.1, d, foam),
    );
    assert_eq!(texels(&sim.cascade0.displacement_map), vec![Texel::zero(); 16]);
    assert_eq!(texels(&sim.cascade2.normal_map), vec![Texel::zero(); 16]);
    assert_eq!(sim.cascade1.normal_map.read(0, 0).w, ONE_BITS);
}

#[test]
fn frame_is_the_list_of_its_passes_run_in_order() {
    let grid = Grid::new(8).unwrap();
    let p = params(10.0);
    let consts = consts();
    let evolve_now = |wave, spectrum| evolve(0.75, wave, spectrum);
    let deltas_now = |d, foam| process_deltas(&p, 0.25, d, foam);

    let mut whole = Simulation::new(grid, 9, &gaussian_number);
    whole.frame(true, &consts, &wave_vector, &density(&p), &evolve_now, &butterfly, &unit, &deltas_now);

    let mut stepwise = Simulation::new(grid, 9, &gaussian_number);
    let passes = plan_frame(&grid, true, stepwise.consts_changed);
    assert_eq!(passes.len(), 8 + 3 * (2 + 4 * 7));
    for pass in passes {
        stepwise.run_pass(
            pass,
            &consts,
            &wave_vector,
            &density(&p),
            &evolve_now,
            &butterfly,
            &unit,
            &deltas_now,
        );
    }
    let pairs = [
        (&whole.cascade0, &stepwise.cascade0),
        (&whole.cascade1, &stepwise.cascade1),
        (&whole.cascade2, &stepwise.cascade2),
    ];
    for (a, b) in pairs {
        assert_eq!(texels(&a.wave_tex), texels(&b.wave_tex));
        assert_eq!(texels(&a.initial_spectrum_tex), texels(&b.initial_spectrum_tex));
        assert_eq!(texels(&a.h_displacement), texels(&b.h_displacement));
        assert_eq!(texels(&a.v_displacement), texels(&b.v_displacement));
        assert_eq!(texels(&a.h_slope), texels(&b.h_slope));
        assert_eq!(texels(&a.jacobian), texels(&b.jacobian));
        assert_eq!(texels(&a.displacement_map), texels(&b.displacement_map));
        assert_eq!(texels(&a.normal_map), texels(&b.normal_map));
        assert_eq!(texels(&a.foam_map), texels(&b.foam_map));
    }
    assert_ne!(texels(&whole.cascade0.displacement_map), vec![Texel::zero(); 64]);
}

#[test]
fn frame_agrees_with_the_calls_for_single_cascades() {
    let grid = Grid::new(8).unwrap();
    let p = params(10.0);
    let consts = consts();
    let evolve_now = |wave, spectrum| evolve(0.5, wave, spectrum);
    let deltas_now = |d, foam| process_deltas(&p, 0.125, d, foam);
    let mut whole = Simulation::new(grid, 2, &gaussian_number);
    whole.frame(false, &consts, &wave_vector, &density(&p), &evolve_now, &butterfly, &unit, &deltas_now);
    let mut single = Simulation::new(grid, 2, &gaussian_number);
    for pc in 0..3 {
        single.compute_initial(pc, &consts, &wave_vector, &density(&p));
    }
    for pc in 0..3 {
        single.compute_cascade(pc, &evolve_now, &butterfly, &unit, &deltas_now);
    }
    assert_eq!(texels(&whole.cascade0.displacement_map), texels(&single.cascade0.displacement_map));
    assert_eq!(texels(&whole.cascade1.normal_map), texels(&single.cascade1.normal_map));
    assert_eq!(texels(&whole.cascade2.foam_map), texels(&single.cascade2.foam_map));
    assert_eq!(texels(&whole.cascade2.jacobian), texels(&single.cascade2.jacobian));
}

#[test]
fn butterfly_pass_touches_one_field_of_one_cascade() {
    let grid = Grid::new(4).unwrap();
    let p = params(10.0);
    let consts = consts();
    let evolve_now = |wave, spectrum| evolve(0.5, wave, spectrum);
    let deltas_now = |d, foam| process_deltas(&p, 0.125, d, foam);
    let mut sim = Simulation::new(grid, 2, &gaussian_number);
    sim.frame(false, &consts, &wave_vector, &density(&p), &evolve_now, &butterfly, &unit, &deltas_now);
    let before: Vec<Vec<Texel>> = vec![
        texels(&sim.cascade1.h_displacement),
        texels(&sim.cascade1.v_displacement),
        texels(&sim.cascade1.h_slope),
        texels(&sim.cascade1.jacobian),
        texels(&sim.cascade1.foam_map),
        texels(&sim.cascade0.h_slope),
        texels(&sim.cascade2.h_slope),
    ];
    let mut run = |sim: &mut Simulation, pass: Pass| {
        sim.run_pass(pass, &consts, &wave_vector, &density(&p), &evolve_now, &butterfly, &unit, &deltas_now)
    };
    let field = Field::HSlope;
    run(&mut sim, Pass::HStep { cascade: 1, field, data: FFTData { stage: 0, pingpong: 0 } });
    assert_eq!(texels(&sim.cascade1.h_slope), before[2]);
    run(&mut sim, Pass::VStep { cascade: 1, field, data: FFTData { stage: 1, pingpong: 1 } });
    assert_ne!(texels(&sim.cascade1.h_slope), before[2]);
    run(&mut sim, Pass::RebuildMesh);
    run(&mut sim, Pass::PrecomputeButterfly);
    run(&mut sim, Pass::HStep { cascade: 1, field, data: FFTData { stage: 0, pingpong: 5 } });
    assert_eq!(texels(&sim.cascade1.h_displacement), before[0]);
    assert_eq!(texels(&sim.cascade1.v_displacement), before[1]);
    assert_eq!(texels(&sim.cascade1.jacobian), before[3]);
    assert_eq!(texels(&sim.cascade1.foam_map), before[4]);
    assert_eq!(texels(&sim.cascade0.h_slope), before[5]);
    assert_eq!(texels(&sim.cascade2.h_slope), before[6]);
}

