use ocean_sim::fft::FFTData;
use ocean_sim::grid::Grid;
use ocean_sim::schedule::{plan_frame, Field, Pass};

#[test]
fn steady_frame_on_eight_lists_three_cascades() {
    let grid = Grid::new(8).unwrap();
    let passes = plan_frame(&grid, false, false);
    assert_eq!(passes.len(), 3 * (2 + 4 * 7));
    assert_eq!(passes[0], Pass::EvolveSpectra { cascade: 0 });
    assert_eq!(passes[29], Pass::ProcessDeltas { cascade: 0 });
    assert_eq!(passes[30], Pass::EvolveSpectra { cascade: 1 });
    assert_eq!(passes[89], Pass::ProcessDeltas { cascade: 2 });
}

#[test]
fn transform_of_one_field_alternates_the_buffers() {
    let grid = Grid::new(8).unwrap();
    let passes = plan_frame(&grid, false, false);
    let field = Field::HDisplacement;
    let expected = vec![
        Pass::HStep { cascade: 0, field, data: FFTData { stage: 0, pingpong: 0 } },
        Pass::HStep { cascade: 0, field, data: FFTData { stage: 1, pingpong: 1 } },
        Pass::HStep { cascade: 0, field, data: FFTData { stage: 2, pingpong: 0 } },
        Pass::VStep { cascade: 0, field, data: FFTData { stage: 0, pingpong: 1 } },
        Pass::VStep { cascade: 0, field, data: FFTData { stage: 1, pingpong: 0 } },
        Pass::VStep { cascade: 0, field, data: FFTData { stage: 2, pingpong: 1 } },
        Pass::Permute { cascade: 0, field },
    ];
    assert_eq!(&passes[1..8], &expected[..]);
}

#[test]
fn fields_are_transformed_in_a_fixed_order() {
    let grid = Grid::new(2).unwrap();
    let passes = plan_frame(&grid, false, false);
    let fields: Vec<Field> = passes
        .iter()
        .filter_map(|p| match p {
            Pass::Permute { cascade: 0, field } => Some(*field),
            _ => None,
        })
        .collect();
    assert_eq!(
        fields,
        vec![Field::HDisplacement, Field::VDisplacement, Field::HSlope, Field::Jacobian]
    );
}

#[test]
fn first_frame_fills_the_butterfly_table_first() {
    let grid = Grid::new(4).unwrap();
    let passes = plan_frame(&grid, true, false);
    assert_eq!(passes[0], Pass::PrecomputeButterfly);
    assert_eq!(passes[1], Pass::EvolveSpectra { cascade: 0 });
    assert_eq!(passes.len(), 1 + 3 * (2 + 4 * 5));
}

#[test]
fn changed_parameters_rebuild_every_spectrum_then_the_mesh() {
    let grid = Grid::new(4).unwrap();
    let passes = plan_frame(&grid, true, true);
    let expected = vec![
        Pass::PrecomputeButterfly,
        Pass::InitialSpectra { cascade: 0 },
        Pass::PackConjugates { cascade: 0 },
        Pass::InitialSpectra { cascade: 1 },
        Pass::PackConjugates { cascade: 1 },
        Pass::InitialSpectra { cascade: 2 },
        Pass::PackConjugates { cascade: 2 },
        Pass::RebuildMesh,
        Pass::EvolveSpectra { cascade: 0 },
    ];
    assert_eq!(&passes[0..9], &expected[..]);
    assert_eq!(passes.len(), 8 + 3 * (2 + 4 * 5));
}

#[test]
fn grid_of_one_texel_has_no_butterfly_stage() {
    let grid = Grid::new(1).unwrap();
    let passes = plan_frame(&grid, false, false);
    assert_eq!(passes.len(), 3 * 6);
    assert_eq!(passes[1], Pass::Permute { cascade: 0, field: Field::HDisplacement });
}

#[test]
fn pass_count_grows_with_the_logarithm_of_the_side() {
    for l in 0..=10u32 {
        let grid = Grid::new(1 << l).unwrap();
        let passes = plan_frame(&grid, false, false);
        assert_eq!(passes.len() as u32, 3 * (2 + 4 * (2 * l + 1)));
        let stages = passes
            .iter()
            .filter(|p| matches!(p, Pass::HStep { .. } | Pass::VStep { .. }))
            .count();
        assert_eq!(stages as u32, 4 * 3 * 2 * l);
    }
}
