use ocean_sim::bits::{bit_reverse, ilog2, pow2_u32};
use ocean_sim::grid::Grid;

#[test]
fn bit_reverse_over_three_bits_is_the_known_permutation() {
    let reversed: Vec<u32> = (0..8).map(|i| bit_reverse(i, 3)).collect();
    assert_eq!(reversed, vec![0, 4, 2, 6, 1, 5, 3, 7]);
}

#[test]
fn bit_reverse_over_zero_bits_is_zero() {
    assert_eq!(bit_reverse(0xffff_ffff, 0), 0);
    assert_eq!(bit_reverse(5, 0), 0);
}

#[test]
fn bit_reverse_ignores_bits_above_the_width() {
    assert_eq!(bit_reverse(6, 4), 6);
    assert_eq!(bit_reverse(6 + 16, 4), 6);
    assert_eq!(bit_reverse(0b1011, 2), 0b11);
}

#[test]
fn bit_reverse_is_an_involution_below_the_width() {
    for bits in 0..=10u32 {
        for x in 0..(1u32 << bits) {
            assert_eq!(bit_reverse(bit_reverse(x, bits), bits), x);
        }
    }
}

#[test]
fn bit_reverse_is_a_permutation() {
    let mut seen = vec![false; 64];
    for x in 0..64 {
        let r = bit_reverse(x, 6) as usize;
        assert!(r < 64);
        assert!(!seen[r]);
        seen[r] = true;
    }
}

#[test]
fn bit_reverse_over_the_full_word() {
    assert_eq!(bit_reverse(1, 32), 0x8000_0000);
    assert_eq!(bit_reverse(0x8000_0000, 32), 1);
    assert_eq!(bit_reverse(0x0000_ffff, 32), 0xffff_0000);
}

#[test]
fn bit_reverse_wraps_above_the_word_width() {
    assert_eq!(bit_reverse(1, 33), 0);
    assert_eq!(bit_reverse(0xffff_ffff, 40), 0xffff_ff00);
    assert_eq!(bit_reverse(0xffff_ffff, 64), 0);
}

#[test]
fn pow2_u32_gives_powers_of_two() {
    assert_eq!(pow2_u32(0), 1);
    assert_eq!(pow2_u32(1), 2);
    assert_eq!(pow2_u32(15), 32768);
    assert_eq!(pow2_u32(31), 0x8000_0000);
}

#[test]
fn ilog2_rounds_down() {
    assert_eq!(ilog2(1), 0);
    assert_eq!(ilog2(2), 1);
    assert_eq!(ilog2(3), 1);
    assert_eq!(ilog2(4), 2);
    assert_eq!(ilog2(127), 6);
    assert_eq!(ilog2(128), 7);
    assert_eq!(ilog2(u32::MAX), 31);
}

#[test]
fn ilog2_agrees_with_the_standard_library() {
    for size in 1..5000u32 {
        assert_eq!(ilog2(size), size.ilog2());
    }
}

#[test]
fn grid_accepts_powers_of_two_up_to_32768() {
    for l in 0..=15u32 {
        let grid = Grid::new(1 << l).unwrap();
        assert_eq!(grid.size(), 1 << l);
        assert_eq!(grid.logsize(), l);
        assert_eq!(grid.texels(), 1usize << (2 * l));
    }
}

#[test]
fn grid_rejects_other_sizes() {
    assert!(Grid::new(0).is_none());
    assert!(Grid::new(3).is_none());
    assert!(Grid::new(6).is_none());
    assert!(Grid::new(100).is_none());
    assert!(Grid::new(32767).is_none());
    assert!(Grid::new(65536).is_none());
    assert!(Grid::new(0x8000_0000).is_none());
    assert!(Grid::new(u32::MAX).is_none());
}
