//! What the butterfly table computes.
//!
//! The butterfly network is run here on symbols instead of numbers. A row of
//! any stage is a sum of terms `w^e * x_j`, where `x_0 .. x_(N-1)` are the
//! inputs and `w` is the primitive `N`-th root of unity with angle `-2*pi/N`;
//! the network is described by how often each such term occurs in each row.
//! The result is exact, and holds in every commutative ring in which `w^N = 1`.

use vstd::prelude::*;
use vstd::arithmetic::power2::{pow2, lemma_pow2_pos, lemma_pow2_unfold, lemma_pow2_adds,
    lemma2_to64};
use vstd::arithmetic::div_mod::{lemma_fundamental_div_mod, lemma_fundamental_div_mod_converse,
    lemma_mod_bound, lemma_small_mod, lemma_add_mod_noop, lemma_mod_multiples_vanish,
    lemma_div_by_multiple, lemma_breakdown, lemma_div_denominator};
use crate::bits::{bit_reversal, lemma_bit_reversal_bound, lemma_bit_reversal_peel_low};
use crate::butterfly::{twiddle_index, in_top_wing, source_top, source_bottom,
    lemma_entry_in_range, lemma_wing_partner};
use crate::spectrum::wave_number;

verus! {

/// How often the term `w^e * x_j` occurs in row `row` once the first `done`
/// stages of the network have run.
///
/// Before any stage, row `j` is the input `x_j`. A stage forms
/// `top + w^k * bottom` from two rows of the stage before; multiplying by
/// `w^k` moves every term of `bottom` from exponent `e - k` to exponent `e`,
/// exponents being taken modulo `N`.
pub open spec fn network_coeff(logsize: nat, done: nat, row: nat, j: nat, e: nat) -> int
    decreases done,
{
    let n = pow2(logsize);
    if done == 0 {
        if row == j && e == 0 {
            1
        } else {
            0
        }
    } else {
        let stage = (done - 1) as nat;
        let k = twiddle_index(n, stage, row);
        network_coeff(logsize, stage, source_top(logsize, stage, row), j, e) + network_coeff(
            logsize,
            stage,
            source_bottom(logsize, stage, row),
            j,
            ((e + n - k) % (n as int)) as nat,
        )
    }
}

/// The closed form of `network_coeff` after `done >= 1` stages: the rows form
/// blocks of `2^done`, and block `b` holds the transform of those inputs whose
/// index is congruent, modulo the number of blocks, to the reversal of `b`.
pub open spec fn block_coeff(logsize: nat, done: nat, row: nat, j: nat, e: nat) -> int {
    let n = pow2(logsize);
    let blocks = pow2((logsize - done) as nat);
    let block = pow2(done);
    if j % blocks == bit_reversal(row / block, (logsize - done) as nat) && e == (row * ((j / blocks)
        * blocks)) % n {
        1
    } else {
        0
    }
}

/// The remainder of a number below `2 * n`.
proof fn lemma_mod_two_ranges(a: int, n: int)
    requires
        n > 0,
        0 <= a < 2 * n,
    ensures
        a % n == if a < n {
            a
        } else {
            a - n
        },
{
    if a < n {
        lemma_small_mod(a as nat, n as nat);
    } else {
        lemma_fundamental_div_mod_converse(a, n, 1, a - n);
    }
}

/// Moving a term by `k` places: the exponent `e - k` is congruent to `y`
/// exactly if `e` is congruent to `y + k`.
proof fn lemma_exponent_shift(n: int, e: int, k: int, y: int)
    requires
        n > 0,
        0 <= e < n,
        0 <= k < n,
        0 <= y,
    ensures
        ((e + n - k) % n == y % n) <==> (e == (y + k) % n),
{
    let t = y % n;
    lemma_mod_bound(y, n);
    lemma_add_mod_noop(y, k, n);
    lemma_small_mod(k as nat, n as nat);
    assert((y + k) % n == (t + k) % n);
    lemma_mod_two_ranges(e + n - k, n);
    lemma_mod_two_ranges(t + k, n);
}

/// The twiddle exponent of `row` at `stage` is `row * N / 2^(stage+1)`
/// reduced modulo `N`.
proof fn lemma_twiddle_is_row_multiple(logsize: nat, stage: nat, row: nat)
    requires
        stage < logsize,
    ensures
        pow2(logsize) == pow2(stage + 1) * pow2((logsize - stage - 1) as nat),
        twiddle_index(pow2(logsize), stage, row) == (row * pow2((logsize - stage - 1) as nat))
            % pow2(logsize),
{
    let n = pow2(logsize) as int;
    let block = pow2(stage + 1) as int;
    let blocks = pow2((logsize - stage - 1) as nat) as int;
    lemma_pow2_adds(stage + 1, (logsize - stage - 1) as nat);
    lemma_pow2_pos(stage + 1);
    assert(n == block * blocks);
    assert(row * n == (row * blocks) * block) by (nonlinear_arith)
        requires
            n == block * blocks,
    ;
    assert(row * blocks >= 0) by (nonlinear_arith)
        requires
            blocks >= 0,
            row >= 0,
    ;
    lemma_div_by_multiple(row * blocks, block);
}

/// At stage 0 the two sources of a row are the inputs whose indices are the
/// reversal of the row's pair number, and that reversal plus `N / 2`.
proof fn lemma_sources_stage0(logsize: nat, row: nat)
    requires
        logsize >= 1,
        row < pow2(logsize),
    ensures
        source_top(logsize, 0, row) == bit_reversal(row / 2, (logsize - 1) as nat),
        source_bottom(logsize, 0, row) == pow2((logsize - 1) as nat) + bit_reversal(
            row / 2,
            (logsize - 1) as nat,
        ),
{
    lemma2_to64();
    let m = (logsize - 1) as nat;
    let pair = row / 2;
    let line_top = 2 * pair;
    let line_bottom = 2 * pair + 1;
    assert(in_top_wing(0, row) <==> row % 2 == 0);
    lemma_bit_reversal_peel_low(line_top, m);
    lemma_bit_reversal_peel_low(line_bottom, m);
    assert(line_top / 2 == pair && line_top % 2 == 0);
    assert(line_bottom / 2 == pair && line_bottom % 2 == 1);
    assert(1 * pow2(m) == pow2(m)) by (nonlinear_arith);
    assert(0 * pow2(m) == 0) by (nonlinear_arith);
}

/// At a later stage the two sources of a row are the row itself and its
/// partner `2^stage` away; they lie in the two half blocks that make up the
/// row's block.
proof fn lemma_sources_later(logsize: nat, stage: nat, row: nat)
    requires
        1 <= stage < logsize,
        row < pow2(logsize),
    ensures
        ({
            let half = pow2(stage);
            let top = source_top(logsize, stage, row);
            let bottom = source_bottom(logsize, stage, row);
            let b = row / pow2(stage + 1);
            &&& top / half == 2 * b
            &&& bottom / half == 2 * b + 1
            &&& top == row || top + half == row
            &&& bottom == row || bottom == row + half
        }),
{
    let half = pow2(stage) as int;
    let block = pow2(stage + 1) as int;
    lemma_pow2_pos(stage);
    lemma_pow2_unfold(stage + 1);
    lemma_wing_partner(logsize, stage, row);
    lemma_fundamental_div_mod(row as int, block);
    lemma_mod_bound(row as int, block);
    let b = row as int / block;
    let r = row as int % block;
    let top = source_top(logsize, stage, row) as int;
    let bottom = source_bottom(logsize, stage, row) as int;
    assert(block * b == half * (2 * b)) by (nonlinear_arith)
        requires
            block == 2 * half,
    ;
    assert(half * (2 * b + 1) == half * (2 * b) + half) by (nonlinear_arith);
    if r < half {
        assert(top == (2 * b) * half + r) by (nonlinear_arith)
            requires
                top == block * b + r,
                block * b == half * (2 * b),
        ;
        assert(bottom == (2 * b + 1) * half + r) by (nonlinear_arith)
            requires
                bottom == block * b + r + half,
                block * b == half * (2 * b),
        ;
        lemma_fundamental_div_mod_converse(top, half, 2 * b, r);
        lemma_fundamental_div_mod_converse(bottom, half, 2 * b + 1, r);
    } else {
        assert(top == (2 * b) * half + (r - half)) by (nonlinear_arith)
            requires
                top == block * b + r - half,
                block * b == half * (2 * b),
        ;
        assert(bottom == (2 * b + 1) * half + (r - half)) by (nonlinear_arith)
            requires
                bottom == block * b + r,
                block * b == half * (2 * b),
        ;
        lemma_fundamental_div_mod_converse(top, half, 2 * b, r - half);
        lemma_fundamental_div_mod_converse(bottom, half, 2 * b + 1, r - half);
    }
}

/// Splitting an input index by `2 * m` in terms of its split by `m`.
proof fn lemma_split_index(j: int, m: int)
    requires
        j >= 0,
        m > 0,
    ensures
        j % (2 * m) == m * ((j / m) % 2) + j % m,
        j / (2 * m) == (j / m) / 2,
        (j / (2 * m)) * (2 * m) + ((j / m) % 2) * m == (j / m) * m,
        0 <= j % m < m,
        j / m >= 0,
{
    lemma_breakdown(j, m, 2);
    lemma_div_denominator(j, m, 2);
    lemma_mod_bound(j, m);
    assert(m * 2 == 2 * m);
    let q = j / m;
    lemma_fundamental_div_mod(j, m);
    assert(q >= 0) by (nonlinear_arith)
        requires
            j == m * q + j % m,
            0 <= j % m < m,
            j >= 0,
            m > 0,
    ;
    assert((q / 2) * (2 * m) + (q % 2) * m == q * m) by (nonlinear_arith)
        requires
            q == 2 * (q / 2) + q % 2,
    ;
}

/// Rows that differ by a half block give the same exponent for an input
/// index that is a multiple of the number of half blocks.
proof fn lemma_partner_exponent(n: int, half: int, halves: int, row: int, other: int, mult: int)
    requires
        n > 0,
        n == half * halves,
        other == row || other == row + half || other + half == row,
        mult >= 0,
        row >= 0,
        other >= 0,
    ensures
        (other * (mult * halves)) % n == (row * (mult * halves)) % n,
{
    let y = row * (mult * halves);
    if other == row + half {
        assert(other * (mult * halves) == n * mult + y) by (nonlinear_arith)
            requires
                other == row + half,
                n == half * halves,
                y == row * (mult * halves),
        ;
        lemma_mod_multiples_vanish(mult, y, n);
    } else if other + half == row {
        let z = other * (mult * halves);
        assert(y == n * mult + z) by (nonlinear_arith)
            requires
                other + half == row,
                n == half * halves,
                y == row * (mult * halves),
                z == other * (mult * halves),
        ;
        lemma_mod_multiples_vanish(mult, z, n);
    }
}

/// After `done >= 1` stages the network has the block form.
pub proof fn lemma_network_blocks(logsize: nat, done: nat, row: nat, j: nat, e: nat)
    requires
        1 <= done <= logsize,
        row < pow2(logsize),
        j < pow2(logsize),
        e < pow2(logsize),
    ensures
        network_coeff(logsize, done, row, j, e) == block_coeff(logsize, done, row, j, e),
    decreases done,
{
    let n = pow2(logsize) as int;
    let stage = (done - 1) as nat;
    let width = (logsize - done) as nat;
    let blocks = pow2(width) as int;
    let block = pow2(done) as int;
    let k = twiddle_index(pow2(logsize), stage, row) as int;
    let top = source_top(logsize, stage, row);
    let bottom = source_bottom(logsize, stage, row);
    let e2 = ((e + n - k) % n) as nat;
    lemma_pow2_pos(logsize);
    lemma_pow2_pos(width);
    lemma_pow2_pos(done);
    lemma_entry_in_range(logsize, stage, row);
    lemma_mod_bound(e + n - k, n);
    lemma_twiddle_is_row_multiple(logsize, stage, row);
    lemma_mod_bound(j as int, blocks);
    let b = row as int / block;
    let c = bit_reversal(b as nat, width) as int;
    lemma_fundamental_div_mod(row as int, block);
    lemma_mod_bound(row as int, block);
    assert(b >= 0) by (nonlinear_arith)
        requires
            row as int == block * b + (row as int) % block,
            0 <= (row as int) % block < block,
            block > 0,
    ;
    lemma_bit_reversal_bound(b as nat, width);
    let q = j as int / blocks;
    let p = j as int % blocks;
    lemma_fundamental_div_mod(j as int, blocks);
    let target = (row * (q * blocks)) % n;
    assert(k == (row * blocks) % n);
    if done == 1 {
        lemma2_to64();
        lemma_sources_stage0(logsize, row);
        lemma_pow2_unfold(logsize);
        assert(n == 2 * blocks);
        assert(top == c);
        assert(bottom == blocks + c);
        assert(network_coeff(logsize, 1, row, j, e) == network_coeff(logsize, 0, top, j, e)
            + network_coeff(logsize, 0, bottom, j, e2));
        lemma_exponent_shift(n, e as int, k, 0);
        lemma_small_mod(0, n as nat);
        lemma_small_mod(k as nat, n as nat);
        assert((e2 == 0) <==> (e == k));
        if j as int == c {
            lemma_fundamental_div_mod_converse(j as int, blocks, 0, c);
            assert(q * blocks == 0) by (nonlinear_arith)
                requires
                    q == 0,
            ;
            assert(row * (q * blocks) == 0) by (nonlinear_arith)
                requires
                    q * blocks == 0,
            ;
        } else if j as int == blocks + c {
            lemma_fundamental_div_mod_converse(j as int, blocks, 1, c);
            assert(q * blocks == blocks) by (nonlinear_arith)
                requires
                    q == 1,
            ;
        } else {
            assert(q == 0 || q == 1) by (nonlinear_arith)
                requires
                    j as int == blocks * q + p,
                    0 <= p < blocks,
                    0 <= j < 2 * blocks,
            ;
            assert(blocks * q == if q == 0 {
                0
            } else {
                blocks
            }) by (nonlinear_arith)
                requires
                    q == 0 || q == 1,
            ;
            assert(p != c);
        }
    } else {
        let half = pow2(stage) as int;
        let halves = pow2((logsize - stage) as nat) as int;
        lemma_pow2_pos(stage);
        lemma_pow2_unfold(done);
        lemma_pow2_unfold((logsize - stage) as nat);
        lemma_pow2_adds(stage, (logsize - stage) as nat);
        assert(block == 2 * half);
        assert(halves == 2 * blocks);
        assert(n == half * halves);
        lemma_sources_later(logsize, stage, row);
        lemma_network_blocks(logsize, stage, top, j, e);
        lemma_network_blocks(logsize, stage, bottom, j, e2);
        assert(network_coeff(logsize, done, row, j, e) == network_coeff(logsize, stage, top, j, e)
            + network_coeff(logsize, stage, bottom, j, e2));
        lemma_bit_reversal_peel_low((2 * b) as nat, width);
        lemma_bit_reversal_peel_low((2 * b + 1) as nat, width);
        assert((2 * b) / 2 == b && (2 * b) % 2 == 0);
        assert((2 * b + 1) / 2 == b && (2 * b + 1) % 2 == 1);
        assert(1 * blocks == blocks) by (nonlinear_arith);
        assert(0 * blocks == 0) by (nonlinear_arith);
        assert(bit_reversal((2 * b) as nat, (logsize - stage) as nat) == c);
        assert(bit_reversal((2 * b + 1) as nat, (logsize - stage) as nat) == blocks + c);
        lemma_split_index(j as int, blocks);
        let coarse = j as int / halves;
        let parity = q % 2;
        assert(j as int % halves == blocks * parity + p);
        assert(coarse * halves + parity * blocks == q * blocks);
        assert(coarse >= 0);
        lemma_partner_exponent(n, half, halves, row as int, top as int, coarse);
        lemma_partner_exponent(n, half, halves, row as int, bottom as int, coarse);
        let y = row * (coarse * halves);
        assert(y >= 0) by (nonlinear_arith)
            requires
                y == row * (coarse * halves),
                coarse >= 0,
                halves >= 0,
        ;
        assert(blocks * parity == if parity == 0 {
            0
        } else {
            blocks
        }) by (nonlinear_arith)
            requires
                parity == 0 || parity == 1,
        ;
        if p == c {
            if parity == 0 {
                assert(q * blocks == coarse * halves);
            } else {
                lemma_exponent_shift(n, e as int, k, y);
                lemma_add_mod_noop(y, row * blocks, n);
                lemma_add_mod_noop(y, k, n);
                lemma_small_mod(k as nat, n as nat);
                lemma_mod_bound(row * blocks, n);
                assert(((row * blocks) % n) % n == (row * blocks) % n) by {
                    lemma_small_mod(((row * blocks) % n) as nat, n as nat);
                }
                assert((y + k) % n == (y + row * blocks) % n);
                assert(y + row * blocks == row * (q * blocks)) by (nonlinear_arith)
                    requires
                        y == row * (coarse * halves),
                        coarse * halves + blocks == q * blocks,
                ;
            }
        }
    }
}

/// Run on symbols, the butterfly network computes the discrete Fourier
/// transform: after the last stage, row `row` holds every input `x_j` exactly
/// once, with the factor `w^(row * j mod N)`.
pub proof fn lemma_network_is_dft(logsize: nat, row: nat, j: nat, e: nat)
    requires
        row < pow2(logsize),
        j < pow2(logsize),
        e < pow2(logsize),
    ensures
        network_coeff(logsize, logsize, row, j, e) == if e == (row * j) % pow2(logsize) {
            1int
        } else {
            0int
        },
{
    lemma2_to64();
    if logsize == 0 {
        assert(row * j == 0) by (nonlinear_arith)
            requires
                row == 0,
        ;
    } else {
        lemma_network_blocks(logsize, logsize, row, j, e);
        let n = pow2(logsize) as int;
        assert(j as int % 1 == 0 && (j as int / 1) * 1 == j);
        lemma_small_mod(row, n as nat);
        vstd::arithmetic::div_mod::lemma_basic_div(row as int, n);
        assert(bit_reversal(0, 0) == 0);
    }
}

/// How often the term `w^e * h(a, b)` occurs in texel `(x, y)` once the first
/// `done` of the `2 * log2(N)` stages of the two-dimensional transform have
/// run on the field `h`. The horizontal stages combine texels of one row, the
/// vertical stages texels of one column.
pub open spec fn transform_coeff(
    logsize: nat,
    done: nat,
    x: nat,
    y: nat,
    a: nat,
    b: nat,
    e: nat,
) -> int
    decreases done,
{
    let n = pow2(logsize);
    if done == 0 {
        if x == a && y == b && e == 0 {
            1
        } else {
            0
        }
    } else {
        let i = (done - 1) as nat;
        if i < logsize {
            let k = twiddle_index(n, i, x);
            transform_coeff(logsize, i, source_top(logsize, i, x), y, a, b, e) + transform_coeff(
                logsize,
                i,
                source_bottom(logsize, i, x),
                y,
                a,
                b,
                ((e + n - k) % (n as int)) as nat,
            )
        } else {
            let stage = (i - logsize) as nat;
            let k = twiddle_index(n, stage, y);
            transform_coeff(logsize, i, x, source_top(logsize, stage, y), a, b, e)
                + transform_coeff(
                logsize,
                i,
                x,
                source_bottom(logsize, stage, y),
                a,
                b,
                ((e + n - k) % (n as int)) as nat,
            )
        }
    }
}

/// Moving a term by `k` places and then by `t` places is the same as moving
/// it by `t` places and then by `k`.
proof fn lemma_shifts_commute(n: int, e: int, k: int, t: int)
    requires
        n > 0,
        0 <= e < n,
        0 <= k < n,
        0 <= t < n,
    ensures
        ((e + n - k) % n + n - t) % n == ((e + n - t) % n + n - k) % n,
{
    let u = (e + n - k) % n;
    let v = (e + n - t) % n;
    lemma_mod_two_ranges(e + n - k, n);
    lemma_mod_two_ranges(e + n - t, n);
    lemma_mod_two_ranges(u + n - t, n);
    lemma_mod_two_ranges(v + n - k, n);
}

/// During the horizontal stages every row is transformed by itself.
proof fn lemma_transform_rows(logsize: nat, done: nat, x: nat, y: nat, a: nat, b: nat, e: nat)
    requires
        done <= logsize,
    ensures
        transform_coeff(logsize, done, x, y, a, b, e) == if y == b {
            network_coeff(logsize, done, x, a, e)
        } else {
            0
        },
    decreases done,
{
    if done > 0 {
        let n = pow2(logsize);
        let i = (done - 1) as nat;
        let k = twiddle_index(n, i, x);
        let e2 = ((e + n - k) % (n as int)) as nat;
        lemma_transform_rows(logsize, i, source_top(logsize, i, x), y, a, b, e);
        lemma_transform_rows(logsize, i, source_bottom(logsize, i, x), y, a, b, e2);
    }
}

/// During the vertical stages every column is transformed by itself, on top
/// of the factor `w^(x * a)` that the horizontal stages left.
proof fn lemma_transform_columns(
    logsize: nat,
    d: nat,
    x: nat,
    y: nat,
    a: nat,
    b: nat,
    e: nat,
)
    requires
        d <= logsize,
        x < pow2(logsize),
        y < pow2(logsize),
        a < pow2(logsize),
        b < pow2(logsize),
        e < pow2(logsize),
    ensures
        transform_coeff(logsize, logsize + d, x, y, a, b, e) == network_coeff(
            logsize,
            d,
            y,
            b,
            ((e + pow2(logsize) - (x * a) % pow2(logsize)) % (pow2(logsize) as int)) as nat,
        ),
    decreases d,
{
    let n = pow2(logsize) as int;
    lemma_pow2_pos(logsize);
    let t = ((x * a) % pow2(logsize)) as int;
    lemma_mod_bound((x * a) as int, n);
    lemma_mod_bound(e + n - t, n);
    let moved = ((e + n - t) % n) as nat;
    if d == 0 {
        lemma_transform_rows(logsize, logsize, x, y, a, b, e);
        lemma_network_is_dft(logsize, x, a, e);
        lemma_exponent_shift(n, e as int, t, 0);
        lemma_small_mod(0, n as nat);
        lemma_small_mod(t as nat, n as nat);
    } else {
        let stage = (d - 1) as nat;
        let i = (logsize + stage) as nat;
        let k = twiddle_index(pow2(logsize), stage, y) as int;
        let top = source_top(logsize, stage, y);
        let bottom = source_bottom(logsize, stage, y);
        lemma_entry_in_range(logsize, stage, y);
        lemma_mod_bound(e + n - k, n);
        let e2 = ((e + n - k) % n) as nat;
        lemma_transform_columns(logsize, stage, x, top, a, b, e);
        lemma_transform_columns(logsize, stage, x, bottom, a, b, e2);
        lemma_shifts_commute(n, e as int, k, t);
        assert(transform_coeff(logsize, logsize + d, x, y, a, b, e) == transform_coeff(
            logsize,
            i,
            x,
            top,
            a,
            b,
            e,
        ) + transform_coeff(logsize, i, x, bottom, a, b, e2));
        assert(network_coeff(logsize, d, y, b, moved) == network_coeff(
            logsize,
            stage,
            top,
            b,
            moved,
        ) + network_coeff(logsize, stage, bottom, b, ((moved + n - k) % n) as nat));
    }
}

/// Run on symbols, the `2 * log2(N)` stages compute the two-dimensional
/// discrete Fourier transform: texel `(x, y)` ends up holding every input
/// `h(a, b)` exactly once, with the factor `w^((x * a + y * b) mod N)`.
pub proof fn lemma_transform_is_dft(logsize: nat, x: nat, y: nat, a: nat, b: nat, e: nat)
    requires
        x < pow2(logsize),
        y < pow2(logsize),
        a < pow2(logsize),
        b < pow2(logsize),
        e < pow2(logsize),
    ensures
        transform_coeff(logsize, 2 * logsize, x, y, a, b, e) == if e == (x * a + y * b) % pow2(
            logsize,
        ) {
            1int
        } else {
            0int
        },
{
    let n = pow2(logsize) as int;
    lemma_pow2_pos(logsize);
    let t = ((x * a) % pow2(logsize)) as int;
    lemma_mod_bound((x * a) as int, n);
    lemma_mod_bound(e + n - t, n);
    let moved = ((e + n - t) % n) as nat;
    lemma_transform_columns(logsize, logsize, x, y, a, b, e);
    assert(logsize + logsize == 2 * logsize);
    lemma_network_is_dft(logsize, y, b, moved);
    lemma_exponent_shift(n, e as int, t, (y * b) as int);
    lemma_mod_bound((y * b) as int, n);
    lemma_small_mod(((y * b) % pow2(logsize)) as nat, n as nat);
    lemma_add_mod_noop((y * b) as int, (x * a) as int, n);
    lemma_add_mod_noop((y * b) as int, t, n);
    lemma_small_mod(t as nat, n as nat);
    assert((y * b + t) % n == ((y * b + x * a) as int) % n);
}

/// How often the term `w^e * h(a, b)` occurs in texel `(x, y)` after the sign
/// correction. The sign `(-1)^(x + y)` is the factor `w^((N / 2) * (x + y))`.
pub open spec fn corrected_coeff(logsize: nat, x: nat, y: nat, a: nat, b: nat, e: nat) -> int {
    let n = pow2(logsize);
    let shift = ((n / 2) * (x + y)) % n;
    transform_coeff(logsize, 2 * logsize, x, y, a, b, ((e + n - shift) % (n as int)) as nat)
}

/// The sign correction centres the transform: after it, texel `(x, y)` holds
/// every input `h(a, b)` exactly once, with the factor `w` raised to `x` times
/// the wave number of column `a` plus `y` times the wave number of row `b`.
pub proof fn lemma_corrected_transform_is_centred(
    logsize: nat,
    x: nat,
    y: nat,
    a: nat,
    b: nat,
    e: nat,
)
    requires
        x < pow2(logsize),
        y < pow2(logsize),
        a < pow2(logsize),
        b < pow2(logsize),
        e < pow2(logsize),
    ensures
        corrected_coeff(logsize, x, y, a, b, e) == if e == (x * wave_number(pow2(logsize), a) + y
            * wave_number(pow2(logsize), b)) % (pow2(logsize) as int) {
            1int
        } else {
            0int
        },
{
    let n = pow2(logsize) as int;
    lemma_pow2_pos(logsize);
    let half = n / 2;
    let shift = (half * (x + y)) % n;
    lemma_mod_bound(half * (x + y), n);
    lemma_mod_bound(e + n - shift, n);
    let moved = ((e + n - shift) % n) as nat;
    lemma_transform_is_dft(logsize, x, y, a, b, moved);
    let plain = (x * a + y * b) as int;
    lemma_exponent_shift(n, e as int, shift, plain);
    lemma_mod_bound(plain, n);
    lemma_small_mod((plain % n) as nat, n as nat);
    lemma_add_mod_noop(plain, half * (x + y), n);
    lemma_add_mod_noop(plain, shift, n);
    lemma_small_mod(shift as nat, n as nat);
    assert((plain + shift) % n == (plain + half * (x + y)) % n);
    let centred = x * (a - half) + y * (b - half);
    if logsize == 0 {
        lemma2_to64();
        assert(half == 0);
        assert(centred == plain) by (nonlinear_arith)
            requires
                half == 0,
                centred == x * (a - half) + y * (b - half),
                plain == x * a + y * b,
        ;
        assert(half * (x + y) == 0) by (nonlinear_arith)
            requires
                half == 0,
        ;
    } else {
        lemma_pow2_unfold(logsize);
        assert(n == 2 * half);
        assert(plain + half * (x + y) == n * (x + y) + centred) by (nonlinear_arith)
            requires
                n == 2 * half,
                centred == x * (a - half) + y * (b - half),
                plain == x * a + y * b,
        ;
        lemma_mod_multiples_vanish((x + y) as int, centred, n);
    }
}

} // verus!
