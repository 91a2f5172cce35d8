use ocean_sim::params::{CascadeConstants, SimConstants};

fn f(bits: u32) -> f32 {
    f32::from_bits(bits)
}

#[test]
fn default_parameters_hold_the_documented_values() {
    let c = SimConstants::default();
    assert_eq!(c.size, 128);
    assert_eq!(c.lengthscale0, 20);
    assert_eq!(c.lengthscale1, 124);
    assert_eq!(c.lengthscale2, 256);
    assert_eq!(c.logsize, 0);
    assert_eq!(c.instances, 5);
    assert_eq!(c.seed, 1);
    assert_eq!(f(c.cutoff_low0), 0.00000001);
    assert_eq!(f(c.cutoff_high0), 1.0);
    assert_eq!(f(c.cutoff_low1), 1.0);
    assert_eq!(f(c.cutoff_high1), 2.0);
    assert_eq!(f(c.cutoff_low2), 2.0);
    assert_eq!(f(c.cutoff_high2), 999.0);
    assert_eq!(f(c.lengthscale0_sf), 0.8);
    assert_eq!(f(c.lengthscale1_sf), 1.0);
    assert_eq!(f(c.lengthscale2_sf), 1.0);
    assert_eq!(f(c.mesh_step), 0.4 * 128.0 / 128.0);
    assert_eq!(f(c.standard_deviation), 1.0);
    assert_eq!(f(c.mean), 0.0);
    assert_eq!(f(c.depth), 500.0);
    assert_eq!(f(c.gravity), 9.81);
    assert_eq!(f(c.beta), 5.0 / 4.0);
    assert_eq!(f(c.gamma), 3.3);
    assert_eq!(f(c.wind_speed), 0.5);
    assert_eq!(f(c.wind_offset), std::f32::consts::FRAC_PI_4);
    assert_eq!(f(c.fetch), 100000.0);
    assert_eq!(f(c.choppiness), 0.6);
    assert_eq!(f(c.swell), 0.1);
    assert_eq!(f(c.integration_step), 0.01);
    assert_eq!(f(c.foam_bias), 0.92);
    assert_eq!(f(c.foam_decay), 0.3);
    assert_eq!(f(c.injection_threshold), -0.3);
    assert_eq!(f(c.injection_amount), 1.0);
    assert_eq!(f(c.height_offset), 4.5);
    assert_eq!(f(c.instance_micro_offset), 0.99);
}

#[test]
fn parameter_sets_compare_value_by_value() {
    let c = SimConstants::default();
    assert!(c.equals(&c));
    let mut other = c;
    other.seed = 2;
    assert!(!c.equals(&other));
    let mut other = c;
    other.choppiness = 0.61_f32.to_bits();
    assert!(!c.equals(&other));
    assert!(!other.equals(&c));
    let mut other = c;
    other.instance_micro_offset = 1.0_f32.to_bits();
    assert!(!c.equals(&other));
}

#[test]
fn zeros_of_either_sign_are_the_same_parameter() {
    let c = SimConstants::default();
    let mut other = c;
    other.mean = (-0.0_f32).to_bits();
    assert!(c.equals(&other));
}

#[test]
fn a_parameter_that_is_not_a_number_differs_from_itself() {
    let mut c = SimConstants::default();
    c.depth = f32::NAN.to_bits();
    assert!(!c.equals(&c));
}

#[test]
fn cascade_selects_the_parameters_of_one_band() {
    let c = SimConstants::default();
    assert_eq!(
        c.cascade(0),
        CascadeConstants {
            lengthscale: 20,
            cutoff_low: 0.00000001_f32.to_bits(),
            cutoff_high: 1.0_f32.to_bits(),
            scale_factor: 0.8_f32.to_bits(),
        }
    );
    assert_eq!(c.cascade(1).lengthscale, 124);
    assert_eq!(f(c.cascade(1).cutoff_high), 2.0);
    assert_eq!(c.cascade(2).lengthscale, 256);
    assert_eq!(f(c.cascade(2).cutoff_high), 999.0);
}

#[test]
fn grid_follows_the_size_parameter() {
    let mut c = SimConstants::default();
    let grid = c.grid().unwrap();
    assert_eq!(grid.size(), 128);
    assert_eq!(grid.logsize(), 7);
    c.refresh_logsize();
    assert_eq!(c.logsize, 7);
    assert!(c.equals(&SimConstants { logsize: 7, ..SimConstants::default() }));
    c.size = 100;
    assert!(c.grid().is_none());
    c.refresh_logsize();
    assert_eq!(c.logsize, 6);
}
