use ocean_sim::butterfly::{precompute_butterfly, ButterflyEntry, ButterflyTable};
use ocean_sim::grid::Grid;

fn entry(twiddle: u32, src_top: u32, src_bottom: u32) -> ButterflyEntry {
    ButterflyEntry { twiddle, src_top, src_bottom }
}

fn stage(grid: &Grid, stage: u32) -> Vec<ButterflyEntry> {
    (0..grid.size()).map(|row| precompute_butterfly(grid, stage, row)).collect()
}

#[test]
fn table_for_eight_matches_the_reference_table() {
    let grid = Grid::new(8).unwrap();
    assert_eq!(
        stage(&grid, 0),
        vec![
            entry(0, 0, 4),
            entry(4, 0, 4),
            entry(0, 2, 6),
            entry(4, 2, 6),
            entry(0, 1, 5),
            entry(4, 1, 5),
            entry(0, 3, 7),
            entry(4, 3, 7),
        ]
    );
    assert_eq!(
        stage(&grid, 1),
        vec![
            entry(0, 0, 2),
            entry(2, 1, 3),
            entry(4, 0, 2),
            entry(6, 1, 3),
            entry(0, 4, 6),
            entry(2, 5, 7),
            entry(4, 4, 6),
            entry(6, 5, 7),
        ]
    );
    assert_eq!(
        stage(&grid, 2),
        vec![
            entry(0, 0, 4),
            entry(1, 1, 5),
            entry(2, 2, 6),
            entry(3, 3, 7),
            entry(4, 0, 4),
            entry(5, 1, 5),
            entry(6, 2, 6),
            entry(7, 3, 7),
        ]
    );
}

#[test]
fn table_for_two_has_one_stage() {
    let grid = Grid::new(2).unwrap();
    assert_eq!(stage(&grid, 0), vec![entry(0, 0, 1), entry(1, 0, 1)]);
}

#[test]
fn table_for_four_matches_the_reference_table() {
    let grid = Grid::new(4).unwrap();
    assert_eq!(
        stage(&grid, 0),
        vec![entry(0, 0, 2), entry(2, 0, 2), entry(0, 1, 3), entry(2, 1, 3)]
    );
    assert_eq!(
        stage(&grid, 1),
        vec![entry(0, 0, 2), entry(1, 1, 3), entry(2, 0, 2), entry(3, 1, 3)]
    );
}

#[test]
fn last_stage_for_sixteen_pairs_rows_eight_apart() {
    let grid = Grid::new(16).unwrap();
    let entries = stage(&grid, 3);
    for row in 0..16u32 {
        assert_eq!(entries[row as usize], entry(row, row % 8, row % 8 + 8));
    }
}

#[test]
fn stored_table_agrees_with_single_entries() {
    for size in [1u32, 2, 4, 8, 16, 64] {
        let grid = Grid::new(size).unwrap();
        let table = ButterflyTable::new(grid);
        assert_eq!(table.grid().size(), size);
        for s in 0..grid.logsize() {
            for row in 0..size {
                assert_eq!(table.entry(s, row), precompute_butterfly(&grid, s, row));
            }
        }
    }
}

#[test]
fn entries_stay_inside_the_grid() {
    let grid = Grid::new(256).unwrap();
    for s in 0..grid.logsize() {
        for row in 0..256 {
            let e = precompute_butterfly(&grid, s, row);
            assert!(e.twiddle < 256);
            assert!(e.src_top < 256);
            assert!(e.src_bottom < 256);
            assert!(e.src_top < e.src_bottom || s == 0);
        }
    }
}

#[test]
fn later_stages_pair_rows_one_half_block_apart() {
    let grid = Grid::new(64).unwrap();
    for s in 1..grid.logsize() {
        for row in 0..64 {
            let e = precompute_butterfly(&grid, s, row);
            assert_eq!(e.src_bottom - e.src_top, 1 << s);
            assert!(e.src_top == row || e.src_bottom == row);
        }
    }
}

#[test]
fn first_stage_sources_are_a_permutation_in_pairs() {
    let grid = Grid::new(32).unwrap();
    let mut tops = vec![0u32; 32];
    for row in 0..32 {
        let e = precompute_butterfly(&grid, 0, row);
        assert_eq!(e.src_bottom, e.src_top + 16);
        tops[e.src_top as usize] += 1;
    }
    for t in 0..16 {
        assert_eq!(tops[t], 2);
    }
}
