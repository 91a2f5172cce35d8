//! The butterfly table of the radix-2 Stockham transform.
//!
//! For every stage `s` and row `y` the table names the two rows of the
//! previous stage that are combined into row `y`, and the twiddle factor that
//! multiplies the second of them. The twiddle factor is held exactly, as the
//! numerator `k` of its angle `-2*pi*k/N`.

use vstd::prelude::*;
use vstd::arithmetic::power2::{pow2, lemma_pow2_pos, lemma_pow2_unfold, lemma_pow2_adds,
    lemma2_to64};
use vstd::arithmetic::div_mod::{lemma_fundamental_div_mod, lemma_mod_bound};
use crate::bits::{bit_reversal, bit_reverse, lemma_bit_reversal_bound, pow2_u32};
use crate::grid::{Grid, lemma_grid_bounds};
use crate::texture::{texel_index, lemma_texel_index_bound};

verus! {

/// One entry of the butterfly table.
#[derive(Clone, Copy, PartialEq, Eq, Structural, Debug)]
pub struct ButterflyEntry {
    /// Numerator `k` of the twiddle angle `-2*pi*k/N`.
    pub twiddle: u32,
    /// Row of the previous stage that enters the sum unchanged.
    pub src_top: u32,
    /// Row of the previous stage that is multiplied by the twiddle factor.
    pub src_bottom: u32,
}

/// Numerator of the twiddle angle for `row` at `stage` on a grid of side `size`.
pub open spec fn twiddle_index(size: nat, stage: nat, row: nat) -> nat {
    ((row * size) / pow2(stage + 1)) % size
}

/// Whether `row` lies in the upper half of its block of `2^(stage+1)` rows.
pub open spec fn in_top_wing(stage: nat, row: nat) -> bool {
    row % pow2(stage + 1) < pow2(stage)
}

/// The first source row: `row` itself in the upper half of a block, the row
/// `2^stage` above it in the lower half; at stage 0 bit-reversed over
/// `logsize` bits.
pub open spec fn source_top(logsize: nat, stage: nat, row: nat) -> nat {
    let line = if in_top_wing(stage, row) {
        row
    } else {
        (row - pow2(stage)) as nat
    };
    if stage == 0 {
        bit_reversal(line, logsize)
    } else {
        line
    }
}

/// The second source row: the row `2^stage` below `row` in the upper half of a
/// block, `row` itself in the lower half; at stage 0 bit-reversed over
/// `logsize` bits.
pub open spec fn source_bottom(logsize: nat, stage: nat, row: nat) -> nat {
    let line = if in_top_wing(stage, row) {
        row + pow2(stage)
    } else {
        row
    };
    if stage == 0 {
        bit_reversal(line, logsize)
    } else {
        line
    }
}

/// The table entry for `row` at `stage` on a grid of side `2^logsize`.
pub open spec fn butterfly_entry(logsize: nat, stage: nat, row: nat) -> ButterflyEntry {
    ButterflyEntry {
        twiddle: twiddle_index(pow2(logsize), stage, row) as u32,
        src_top: source_top(logsize, stage, row) as u32,
        src_bottom: source_bottom(logsize, stage, row) as u32,
    }
}

/// In the upper half of a block the partner row lies below and inside the
/// grid; in the lower half it lies above.
pub proof fn lemma_wing_partner(logsize: nat, stage: nat, row: nat)
    requires
        stage < logsize,
        row < pow2(logsize),
    ensures
        in_top_wing(stage, row) ==> row + pow2(stage) < pow2(logsize),
        !in_top_wing(stage, row) ==> row >= pow2(stage),
{
    let half = pow2(stage) as int;
    let block = pow2(stage + 1) as int;
    let blocks = pow2((logsize - stage - 1) as nat) as int;
    lemma_pow2_pos(stage);
    lemma_pow2_unfold(stage + 1);
    lemma_pow2_adds(stage + 1, (logsize - stage - 1) as nat);
    lemma_fundamental_div_mod(row as int, block);
    lemma_mod_bound(row as int, block);
    let q = row as int / block;
    let r = row as int % block;
    if r < half {
        assert(q < blocks) by (nonlinear_arith)
            requires
                block * q + r < block * blocks,
                r >= 0,
                block > 0,
        ;
        assert(block * (q + 1) <= block * blocks) by (nonlinear_arith)
            requires
                q + 1 <= blocks,
                block > 0,
        ;
        assert(block * (q + 1) == block * q + block) by (nonlinear_arith);
    } else {
        assert(block * q >= 0) by (nonlinear_arith)
            requires
                q >= 0,
                block > 0,
        ;
    }
}

/// Every entry of the table names source rows inside the grid and a twiddle
/// numerator below `N`.
pub proof fn lemma_entry_in_range(logsize: nat, stage: nat, row: nat)
    requires
        stage < logsize,
        row < pow2(logsize),
    ensures
        twiddle_index(pow2(logsize), stage, row) < pow2(logsize),
        source_top(logsize, stage, row) < pow2(logsize),
        source_bottom(logsize, stage, row) < pow2(logsize),
{
    lemma_pow2_pos(logsize);
    lemma_wing_partner(logsize, stage, row);
    let size = pow2(logsize);
    lemma_mod_bound(((row * size) / pow2(stage + 1)) as int, size as int);
    if stage == 0 {
        let top_line = if in_top_wing(stage, row) {
            row
        } else {
            (row - pow2(stage)) as nat
        };
        let bottom_line = if in_top_wing(stage, row) {
            row + pow2(stage)
        } else {
            row
        };
        lemma_bit_reversal_bound(top_line, logsize);
        lemma_bit_reversal_bound(bottom_line, logsize);
    }
}

/// Computes the table entry for `row` at `stage`.
pub fn precompute_butterfly(grid: &Grid, stage: u32, row: u32) -> (entry: ButterflyEntry)
    requires
        grid.wf(),
        stage < grid.spec_logsize(),
        row < grid.spec_size(),
    ensures
        entry == butterfly_entry(grid.spec_logsize() as nat, stage as nat, row as nat),
        entry.twiddle == twiddle_index(grid.spec_size() as nat, stage as nat, row as nat),
        entry.src_top == source_top(grid.spec_logsize() as nat, stage as nat, row as nat),
        entry.src_bottom == source_bottom(grid.spec_logsize() as nat, stage as nat, row as nat),
        entry.twiddle < grid.spec_size(),
        entry.src_top < grid.spec_size(),
        entry.src_bottom < grid.spec_size(),
{
    let size = grid.size();
    let logsize = grid.logsize();
    proof {
        lemma_grid_bounds(*grid);
        lemma_wing_partner(logsize as nat, stage as nat, row as nat);
        lemma_entry_in_range(logsize as nat, stage as nat, row as nat);
        lemma_pow2_pos((stage + 1) as nat);
        assert(row * size < 0x4000_0000) by (nonlinear_arith)
            requires
                row < size,
                size <= 0x8000,
        ;
    }
    let step = pow2_u32(stage);
    let block = pow2_u32(stage + 1);
    let k = ((row * size) / block) % size;
    let wing = row % block < step;
    let mut yt: u32 = row;
    let mut yb: u32 = row;
    if wing {
        yb = yb + step;
    } else {
        yt = yt - step;
    }
    if stage == 0 {
        yt = bit_reverse(yt, logsize);
        yb = bit_reverse(yb, logsize);
    }
    ButterflyEntry { twiddle: k, src_top: yt, src_bottom: yb }
}

/// The butterfly table of one grid: `log2(N)` stages by `N` rows, stored row
/// by row with the stage running fastest.
pub struct ButterflyTable {
    grid: Grid,
    entries: Vec<ButterflyEntry>,
}

impl View for ButterflyTable {
    type V = Seq<ButterflyEntry>;

    closed spec fn view(&self) -> Seq<ButterflyEntry> {
        self.entries@
    }
}

impl ButterflyTable {
    /// The grid that the table was computed for.
    pub closed spec fn spec_grid(&self) -> Grid {
        self.grid
    }

    /// The table belongs to a well-formed grid and holds, at every stage and
    /// row, the entry that the butterfly construction prescribes.
    pub open spec fn wf(&self) -> bool {
        let logsize = self.spec_grid().spec_logsize() as nat;
        let size = self.spec_grid().spec_size() as nat;
        &&& self.spec_grid().wf()
        &&& self@.len() == logsize * size
        &&& forall|stage: nat, row: nat|
            stage < logsize && row < size ==> #[trigger] self@[texel_index(logsize, stage, row)]
                == butterfly_entry(logsize, stage, row)
    }

    /// The entry for `row` at `stage`.
    pub open spec fn spec_entry(&self, stage: nat, row: nat) -> ButterflyEntry {
        self@[texel_index(self.spec_grid().spec_logsize() as nat, stage, row)]
    }

    /// The grid that the table was computed for.
    #[verifier::when_used_as_spec(spec_grid)]
    pub fn grid(&self) -> (g: Grid)
        ensures
            g == self.spec_grid(),
    {
        self.grid
    }

    /// Computes the whole table for `grid`.
    pub fn new(grid: Grid) -> (table: ButterflyTable)
        requires
            grid.wf(),
        ensures
            table.wf(),
            table.spec_grid() == grid,
    {
        let size = grid.size();
        let logsize = grid.logsize();
        let mut entries: Vec<ButterflyEntry> = Vec::new();
        let mut row: u32 = 0;
        while row < size
            invariant
                grid.wf(),
                size == grid.spec_size(),
                logsize == grid.spec_logsize(),
                row <= size,
                entries@.len() == row * logsize,
                forall|s: nat, r: nat|
                    s < logsize && r < row ==> #[trigger] entries@[texel_index(
                        logsize as nat,
                        s,
                        r,
                    )] == butterfly_entry(logsize as nat, s, r),
            decreases size - row,
        {
            let mut stage: u32 = 0;
            while stage < logsize
                invariant
                    grid.wf(),
                    size == grid.spec_size(),
                    logsize == grid.spec_logsize(),
                    row < size,
                    stage <= logsize,
                    entries@.len() == row * logsize + stage,
                    forall|s: nat, r: nat|
                        s < logsize && r < row ==> #[trigger] entries@[texel_index(
                            logsize as nat,
                            s,
                            r,
                        )] == butterfly_entry(logsize as nat, s, r),
                    forall|s: nat|
                        s < stage ==> #[trigger] entries@[texel_index(
                            logsize as nat,
                            s,
                            row as nat,
                        )] == butterfly_entry(logsize as nat, s, row as nat),
                decreases logsize - stage,
            {
                let ghost before = entries@;
                let entry = precompute_butterfly(&grid, stage, row);
                entries.push(entry);
                proof {
                    assert forall|s: nat, r: nat| s < logsize && r < row implies 0 <= (
                    #[trigger] texel_index(logsize as nat, s, r)) < before.len() by {
                        lemma_texel_index_bound(logsize as nat, row as nat, s, r);
                        assert(logsize * row == row * logsize) by (nonlinear_arith);
                    }
                }
                stage = stage + 1;
            }
            proof {
                assert((row + 1) * logsize == row * logsize + logsize) by (nonlinear_arith);
            }
            row = row + 1;
        }
        proof {
            assert(size * logsize == logsize * size) by (nonlinear_arith);
        }
        ButterflyTable { grid, entries }
    }

    /// Looks up the entry for `row` at `stage`.
    pub fn entry(&self, stage: u32, row: u32) -> (entry: ButterflyEntry)
        requires
            self.wf(),
            stage < self.spec_grid().spec_logsize(),
            row < self.spec_grid().spec_size(),
        ensures
            entry == self.spec_entry(stage as nat, row as nat),
            entry == butterfly_entry(
                self.spec_grid().spec_logsize() as nat,
                stage as nat,
                row as nat,
            ),
            entry.twiddle < self.spec_grid().spec_size(),
            entry.src_top < self.spec_grid().spec_size(),
            entry.src_bottom < self.spec_grid().spec_size(),
    {
        let logsize = self.grid.logsize();
        let len = self.entries.len();
        proof {
            lemma_grid_bounds(self.grid);
            lemma_texel_index_bound(
                logsize as nat,
                self.grid.spec_size() as nat,
                stage as nat,
                row as nat,
            );
            lemma_entry_in_range(logsize as nat, stage as nat, row as nat);
            lemma2_to64();
            assert(row * logsize <= texel_index(logsize as nat, stage as nat, row as nat) < len);
        }
        let i = (row as usize) * (logsize as usize) + (stage as usize);
        self.entries[i]
    }
}

} // verus!
