//! The order of the passes of one frame, as data.
//!
//! A host that runs the passes elsewhere (on a graphics device, say) submits
//! them one by one in this order, and lets each finish before the next
//! starts. `Simulation::frame` draws up this list and runs every pass of it
//! with `Simulation::run_pass`.

use vstd::prelude::*;
use crate::fft::FFTData;
use crate::grid::Grid;

verus! {

/// The four fields that are transformed each frame.
#[derive(Clone, Copy, PartialEq, Eq, Structural, Debug)]
pub enum Field {
    HDisplacement,
    VDisplacement,
    HSlope,
    Jacobian,
}

/// One pass over the whole grid.
#[derive(Clone, Copy, PartialEq, Eq, Structural, Debug)]
pub enum Pass {
    /// Fill the butterfly table.
    PrecomputeButterfly,
    /// Synthesise the initial spectrum of a cascade.
    InitialSpectra { cascade: u32 },
    /// Pack the spectrum of a cascade with its mirrored conjugate.
    PackConjugates { cascade: u32 },
    /// Rebuild the mesh.
    RebuildMesh,
    /// Evolve the spectrum of a cascade to the current time.
    EvolveSpectra { cascade: u32 },
    /// One horizontal butterfly stage on one field of a cascade.
    HStep { cascade: u32, field: Field, data: FFTData },
    /// One vertical butterfly stage on one field of a cascade.
    VStep { cascade: u32, field: Field, data: FFTData },
    /// The scaling and sign correction on one field of a cascade.
    Permute { cascade: u32, field: Field },
    /// Delta processing of a cascade.
    ProcessDeltas { cascade: u32 },
}

/// Pass number `i` of the transform of one field: the horizontal stages in
/// order, the vertical stages in order, the scaling and sign correction.
/// Stage number `i` of the `2 * logsize` butterfly stages reads ping-pong
/// texture `i mod 2` and writes the other one.
pub open spec fn ifft2d_pass(logsize: nat, cascade: u32, field: Field, i: int) -> Pass {
    if i < logsize {
        Pass::HStep { cascade, field, data: FFTData { stage: i as u32, pingpong: (i % 2) as u32 } }
    } else if i < 2 * logsize {
        Pass::VStep {
            cascade,
            field,
            data: FFTData { stage: (i - logsize) as u32, pingpong: (i % 2) as u32 },
        }
    } else {
        Pass::Permute { cascade, field }
    }
}

/// The passes of the transform of one field.
pub open spec fn ifft2d_passes(logsize: nat, cascade: u32, field: Field) -> Seq<Pass> {
    Seq::new(2 * logsize + 1, |i: int| ifft2d_pass(logsize, cascade, field, i))
}

/// The passes that rebuild the spectrum of one cascade.
pub open spec fn initial_passes(cascade: u32) -> Seq<Pass> {
    seq![Pass::InitialSpectra { cascade }, Pass::PackConjugates { cascade }]
}

/// The passes of one frame for one cascade.
pub open spec fn cascade_passes(logsize: nat, cascade: u32) -> Seq<Pass> {
    seq![Pass::EvolveSpectra { cascade }] + ifft2d_passes(logsize, cascade, Field::HDisplacement)
        + ifft2d_passes(logsize, cascade, Field::VDisplacement) + ifft2d_passes(
        logsize,
        cascade,
        Field::HSlope,
    ) + ifft2d_passes(logsize, cascade, Field::Jacobian) + seq![Pass::ProcessDeltas { cascade }]
}

/// The passes that run before the cascades: the butterfly table on the first
/// frame, and the spectra of all cascades and the mesh after a change of
/// parameters.
pub open spec fn setup_passes(first_frame: bool, consts_changed: bool) -> Seq<Pass> {
    (if first_frame {
        seq![Pass::PrecomputeButterfly]
    } else {
        Seq::<Pass>::empty()
    }) + (if consts_changed {
        initial_passes(0) + initial_passes(1) + initial_passes(2) + seq![Pass::RebuildMesh]
    } else {
        Seq::<Pass>::empty()
    })
}

/// All passes of one frame, in order.
pub open spec fn frame_passes(first_frame: bool, consts_changed: bool, logsize: nat) -> Seq<Pass> {
    setup_passes(first_frame, consts_changed) + cascade_passes(logsize, 0) + cascade_passes(
        logsize,
        1,
    ) + cascade_passes(logsize, 2)
}

/// Number of passes of one frame: per cascade one evolution, four transforms
/// of `2 * log2(N)` stages and one closing pass each, and one delta
/// processing; before them one pass on the first frame and seven after a
/// change of parameters.
pub proof fn lemma_frame_pass_count(first_frame: bool, consts_changed: bool, logsize: nat)
    ensures
        cascade_passes(logsize, 0).len() == 2 + 4 * (2 * logsize + 1),
        frame_passes(first_frame, consts_changed, logsize).len() == (if first_frame {
            1nat
        } else {
            0nat
        }) + (if consts_changed {
            7nat
        } else {
            0nat
        }) + 3 * (2 + 4 * (2 * logsize + 1)),
{
}

/// Appends the passes of the transform of one field.
fn push_ifft2d(passes: &mut Vec<Pass>, logsize: u32, cascade: u32, field: Field)
    requires
        logsize <= 15,
    ensures
        final(passes)@ == old(passes)@ + ifft2d_passes(logsize as nat, cascade, field),
{
    let ghost start = passes@;
    let mut data = FFTData { stage: 0, pingpong: 0 };
    let mut stage: u32 = 0;
    while stage < logsize
        invariant
            logsize <= 15,
            stage <= logsize,
            data.pingpong == stage % 2,
            passes@.len() == start.len() + stage,
            forall|i: int| 0 <= i < start.len() ==> passes@[i] == start[i],
            forall|k: int|
                start.len() <= k < passes@.len() ==> #[trigger] passes@[k] == ifft2d_pass(
                    logsize as nat,
                    cascade,
                    field,
                    k - start.len(),
                ),
        decreases logsize - stage,
    {
        data.stage = stage;
        passes.push(Pass::HStep { cascade, field, data });
        data.pingpong = (data.pingpong + 1) % 2;
        stage = stage + 1;
    }
    let mut stage: u32 = 0;
    while stage < logsize
        invariant
            logsize <= 15,
            stage <= logsize,
            data.pingpong == (logsize + stage) % 2,
            passes@.len() == start.len() + logsize + stage,
            forall|i: int| 0 <= i < start.len() ==> passes@[i] == start[i],
            forall|k: int|
                start.len() <= k < passes@.len() ==> #[trigger] passes@[k] == ifft2d_pass(
                    logsize as nat,
                    cascade,
                    field,
                    k - start.len(),
                ),
        decreases logsize - stage,
    {
        data.stage = stage;
        passes.push(Pass::VStep { cascade, field, data });
        data.pingpong = (data.pingpong + 1) % 2;
        stage = stage + 1;
    }
    passes.push(Pass::Permute { cascade, field });
    proof {
        assert(passes@ =~= start + ifft2d_passes(logsize as nat, cascade, field));
    }
}

/// Appends the passes of one frame for one cascade.
fn push_cascade(passes: &mut Vec<Pass>, logsize: u32, cascade: u32)
    requires
        logsize <= 15,
    ensures
        final(passes)@ == old(passes)@ + cascade_passes(logsize as nat, cascade),
{
    let ghost start = passes@;
    passes.push(Pass::EvolveSpectra { cascade });
    push_ifft2d(passes, logsize, cascade, Field::HDisplacement);
    push_ifft2d(passes, logsize, cascade, Field::VDisplacement);
    push_ifft2d(passes, logsize, cascade, Field::HSlope);
    push_ifft2d(passes, logsize, cascade, Field::Jacobian);
    passes.push(Pass::ProcessDeltas { cascade });
    proof {
        assert(passes@ =~= start + cascade_passes(logsize as nat, cascade));
    }
}

/// Lists the passes of one frame on `grid`, in the order in which they run.
pub fn plan_frame(grid: &Grid, first_frame: bool, consts_changed: bool) -> (passes: Vec<Pass>)
    requires
        grid.wf(),
    ensures
        passes@ == frame_passes(first_frame, consts_changed, grid.spec_logsize() as nat),
{
    let logsize = grid.logsize();
    let mut passes: Vec<Pass> = Vec::new();
    if first_frame {
        passes.push(Pass::PrecomputeButterfly);
    }
    if consts_changed {
        passes.push(Pass::InitialSpectra { cascade: 0 });
        passes.push(Pass::PackConjugates { cascade: 0 });
        passes.push(Pass::InitialSpectra { cascade: 1 });
        passes.push(Pass::PackConjugates { cascade: 1 });
        passes.push(Pass::InitialSpectra { cascade: 2 });
        passes.push(Pass::PackConjugates { cascade: 2 });
        passes.push(Pass::RebuildMesh);
    }
    proof {
        assert(passes@ =~= setup_passes(first_frame, consts_changed));
    }
    push_cascade(&mut passes, logsize, 0);
    push_cascade(&mut passes, logsize, 1);
    push_cascade(&mut passes, logsize, 2);
    passes
}

} // verus!
