//! The two-dimensional inverse transform: `log2(N)` horizontal butterfly
//! stages, `log2(N)` vertical ones, and a final pass that scales the result
//! and corrects its sign on a checkerboard, run over a pair of ping-pong
//! textures.
//!
//! The butterfly itself, `top + w^k * bottom` on one complex number, and the
//! multiplication by the scale factor are rounding arithmetic and are supplied
//! by the caller as kernels. Everything else (which texels meet in which
//! butterfly, which buffer is read and which is written, in what order the
//! stages run, where the sign is flipped) is fixed and proved here.

use vstd::prelude::*;
use vstd::arithmetic::power2::pow2;
use crate::butterfly::{ButterflyTable, butterfly_entry};
use crate::grid::{Grid, lemma_grid_bounds};
use crate::texture::{Complex, Texel, Texture, texel_index, lemma_texel_index_bound,
    lemma_index_coordinates, negate,
    negated, ZERO_BITS, ONE_BITS};

verus! {

/// Push constants of one butterfly dispatch: the stage to run, and which of
/// the two ping-pong textures is read (the other one is written).
#[derive(Clone, Copy, PartialEq, Eq, Structural, Debug)]
pub struct FFTData {
    /// Number of the stage within its direction, from 0.
    pub stage: u32,
    /// Number of the texture that is read: 0 or 1.
    pub pingpong: u32,
}

/// Whether `out` can be what the kernel `f` returns for the butterfly that
/// meets at texel `(x, y)`: both complex numbers packed in the texel go
/// through the same butterfly, whose sources lie in the same row (horizontal
/// pass) or column (vertical pass) of `src`.
pub open spec fn butterfly_out<F: Fn(Complex, Complex, u32, u32) -> Complex>(
    f: &F,
    logsize: nat,
    vertical: bool,
    stage: nat,
    src: Seq<Texel>,
    x: nat,
    y: nat,
    out: Texel,
) -> bool {
    let n = pow2(logsize);
    let e = butterfly_entry(
        logsize,
        stage,
        if vertical {
            y
        } else {
            x
        },
    );
    let top = if vertical {
        src[texel_index(n, x, e.src_top as nat)]
    } else {
        src[texel_index(n, e.src_top as nat, y)]
    };
    let bottom = if vertical {
        src[texel_index(n, x, e.src_bottom as nat)]
    } else {
        src[texel_index(n, e.src_bottom as nat, y)]
    };
    &&& call_ensures(*f, (top.spec_xy(), bottom.spec_xy(), e.twiddle, n as u32), out.spec_xy())
    &&& call_ensures(*f, (top.spec_zw(), bottom.spec_zw(), e.twiddle, n as u32), out.spec_zw())
}

/// Whether `dst` can be the result of one butterfly stage applied to `src`.
pub open spec fn step_rel<F: Fn(Complex, Complex, u32, u32) -> Complex>(
    f: &F,
    logsize: nat,
    vertical: bool,
    stage: nat,
    src: Seq<Texel>,
    dst: Seq<Texel>,
) -> bool {
    let n = pow2(logsize);
    &&& dst.len() == n * n
    &&& forall|x: nat, y: nat|
        x < n && y < n ==> butterfly_out(
            f,
            logsize,
            vertical,
            stage,
            src,
            x,
            y,
            #[trigger] dst[texel_index(n, x, y)],
        )
}

/// Whether `dst` can be the result of stage number `i` of the transform
/// applied to `src`. Stages `0 .. logsize` are the horizontal ones in order,
/// stages `logsize .. 2 * logsize` the vertical ones.
pub open spec fn nth_step_rel<F: Fn(Complex, Complex, u32, u32) -> Complex>(
    f: &F,
    logsize: nat,
    i: nat,
    src: Seq<Texel>,
    dst: Seq<Texel>,
) -> bool {
    if i < logsize {
        step_rel(f, logsize, false, i, src, dst)
    } else {
        step_rel(f, logsize, true, (i - logsize) as nat, src, dst)
    }
}

/// Whether `dst` can be the result of the first `count` stages of the
/// transform applied to `src`.
pub open spec fn stages_rel<F: Fn(Complex, Complex, u32, u32) -> Complex>(
    f: &F,
    logsize: nat,
    count: nat,
    src: Seq<Texel>,
    dst: Seq<Texel>,
) -> bool
    decreases count,
{
    if count == 0 {
        dst == src
    } else {
        exists|mid: Seq<Texel>|
            stages_rel(f, logsize, (count - 1) as nat, src, mid) && #[trigger] nth_step_rel(
                f,
                logsize,
                (count - 1) as nat,
                mid,
                dst,
            )
    }
}

/// Whether `dst` can be the result of the whole transform applied to `src`:
/// all `2 * logsize` butterfly stages, then the scaling and sign correction.
pub open spec fn ifft2d_rel<F: Fn(Complex, Complex, u32, u32) -> Complex, S: Fn(u32) -> u32>(
    f: &F,
    rescale: &S,
    logsize: nat,
    src: Seq<Texel>,
    dst: Seq<Texel>,
) -> bool {
    exists|spatial: Seq<Texel>|
        #[trigger] stages_rel(f, logsize, 2 * logsize, src, spatial) && permute_rel(
            rescale,
            pow2(logsize),
            spatial,
            dst,
        )
}

/// A chain of `count` stages followed by stage number `count` is a chain of
/// `count + 1` stages.
pub proof fn lemma_stages_extend<F: Fn(Complex, Complex, u32, u32) -> Complex>(
    f: &F,
    logsize: nat,
    count: nat,
    src: Seq<Texel>,
    mid: Seq<Texel>,
    dst: Seq<Texel>,
)
    requires
        stages_rel(f, logsize, count, src, mid),
        nth_step_rel(f, logsize, count, mid, dst),
    ensures
        stages_rel(f, logsize, count + 1, src, dst),
{
    let i = ((count + 1) - 1) as nat;
    assert(stages_rel(f, logsize, i, src, mid) && nth_step_rel(f, logsize, i, mid, dst));
}

/// What the sign correction makes of texel `t` at `(x, y)`: the real parts
/// of the two packed signals, negated where `x + y` is odd, followed by the
/// constants `0.0` and `1.0`.
pub open spec fn permuted_texel(t: Texel, x: nat, y: nat) -> Texel {
    if (x + y) % 2 == 0 {
        Texel { x: t.x, y: t.z, z: ZERO_BITS, w: ONE_BITS }
    } else {
        Texel { x: negated(t.x), y: negated(t.z), z: ZERO_BITS, w: ONE_BITS }
    }
}

/// Whether `out` can be what the last pass makes of texel `t` at `(x, y)`:
/// the kernel `rescale` applies the scale factor to the real parts of the two
/// packed signals, and the sign correction follows.
pub open spec fn permute_texel_rel<S: Fn(u32) -> u32>(
    rescale: &S,
    t: Texel,
    x: nat,
    y: nat,
    out: Texel,
) -> bool {
    exists|first: u32, second: u32|
        {
            &&& #[trigger] call_ensures(*rescale, (t.x,), first)
            &&& #[trigger] call_ensures(*rescale, (t.z,), second)
            &&& out == permuted_texel(Texel { x: first, y: t.y, z: second, w: t.w }, x, y)
        }
}

/// Whether `dst` can be the result of the last pass applied to a whole `n` by
/// `n` texture.
pub open spec fn permute_rel<S: Fn(u32) -> u32>(
    rescale: &S,
    n: nat,
    src: Seq<Texel>,
    dst: Seq<Texel>,
) -> bool {
    &&& dst.len() == n * n
    &&& forall|i: int|
        0 <= i < n * n ==> permute_texel_rel(
            rescale,
            src[i],
            (i % (n as int)) as nat,
            (i / (n as int)) as nat,
            #[trigger] dst[i],
        )
}

/// Whether the kernel `f` accepts every input.
pub open spec fn rescale_total<S: Fn(u32) -> u32>(f: &S) -> bool {
    forall|v: u32| call_requires(*f, (v,))
}

/// Whether the kernel `f` returns one result only for each input.
pub open spec fn rescale_deterministic<S: Fn(u32) -> u32>(f: &S) -> bool {
    forall|v: u32, r1: u32, r2: u32|
        call_ensures(*f, (v,), r1) && call_ensures(*f, (v,), r2) ==> r1 == r2
}

/// With a deterministic kernel the last pass has one result only.
pub proof fn lemma_permute_determined<S: Fn(u32) -> u32>(
    rescale: &S,
    n: nat,
    src: Seq<Texel>,
    a: Seq<Texel>,
    b: Seq<Texel>,
)
    requires
        rescale_deterministic(rescale),
        permute_rel(rescale, n, src, a),
        permute_rel(rescale, n, src, b),
    ensures
        a == b,
{
    assert forall|i: int| 0 <= i < n * n implies a[i] == b[i] by {
        let x = (i % (n as int)) as nat;
        let y = (i / (n as int)) as nat;
        assert(permute_texel_rel(rescale, src[i], x, y, a[i]));
        assert(permute_texel_rel(rescale, src[i], x, y, b[i]));
    }
    assert(a =~= b);
}

/// Whether the kernel `f` accepts every input.
pub open spec fn kernel_total<F: Fn(Complex, Complex, u32, u32) -> Complex>(f: &F) -> bool {
    forall|a: Complex, b: Complex, k: u32, n: u32| call_requires(*f, (a, b, k, n))
}

/// Whether the kernel `f` returns one result only for each input.
pub open spec fn kernel_deterministic<F: Fn(Complex, Complex, u32, u32) -> Complex>(
    f: &F,
) -> bool {
    forall|a: Complex, b: Complex, k: u32, n: u32, r1: Complex, r2: Complex|
        call_ensures(*f, (a, b, k, n), r1) && call_ensures(*f, (a, b, k, n), r2) ==> r1 == r2
}

/// With a deterministic kernel a butterfly stage has one result only.
pub proof fn lemma_step_determined<F: Fn(Complex, Complex, u32, u32) -> Complex>(
    f: &F,
    logsize: nat,
    vertical: bool,
    stage: nat,
    src: Seq<Texel>,
    a: Seq<Texel>,
    b: Seq<Texel>,
)
    requires
        kernel_deterministic(f),
        step_rel(f, logsize, vertical, stage, src, a),
        step_rel(f, logsize, vertical, stage, src, b),
    ensures
        a == b,
{
    let n = pow2(logsize);
    assert forall|i: int| 0 <= i < a.len() implies a[i] == b[i] by {
        lemma_index_coordinates(n, n, i);
        let x = (i % (n as int)) as nat;
        let y = (i / (n as int)) as nat;
        assert(texel_index(n, x, y) == i);
        assert(butterfly_out(f, logsize, vertical, stage, src, x, y, a[texel_index(n, x, y)]));
        assert(butterfly_out(f, logsize, vertical, stage, src, x, y, b[texel_index(n, x, y)]));
        assert(a[i].spec_xy() == b[i].spec_xy());
        assert(a[i].spec_zw() == b[i].spec_zw());
    }
    assert(a =~= b);
}

/// With a deterministic kernel a chain of stages has one result only.
pub proof fn lemma_stages_determined<F: Fn(Complex, Complex, u32, u32) -> Complex>(
    f: &F,
    logsize: nat,
    count: nat,
    src: Seq<Texel>,
    a: Seq<Texel>,
    b: Seq<Texel>,
)
    requires
        kernel_deterministic(f),
        stages_rel(f, logsize, count, src, a),
        stages_rel(f, logsize, count, src, b),
    ensures
        a == b,
    decreases count,
{
    if count > 0 {
        let i = (count - 1) as nat;
        let mid_a = choose|m: Seq<Texel>|
            stages_rel(f, logsize, i, src, m) && #[trigger] nth_step_rel(f, logsize, i, m, a);
        let mid_b = choose|m: Seq<Texel>|
            stages_rel(f, logsize, i, src, m) && #[trigger] nth_step_rel(f, logsize, i, m, b);
        lemma_stages_determined(f, logsize, i, src, mid_a, mid_b);
        if i < logsize {
            lemma_step_determined(f, logsize, false, i, mid_a, a, b);
        } else {
            lemma_step_determined(f, logsize, true, (i - logsize) as nat, mid_a, a, b);
        }
    }
}

/// With deterministic kernels the transform of a field is determined by the
/// field.
pub proof fn lemma_ifft2d_determined<
    F: Fn(Complex, Complex, u32, u32) -> Complex,
    S: Fn(u32) -> u32,
>(f: &F, rescale: &S, logsize: nat, src: Seq<Texel>, a: Seq<Texel>, b: Seq<Texel>)
    requires
        kernel_deterministic(f),
        rescale_deterministic(rescale),
        ifft2d_rel(f, rescale, logsize, src, a),
        ifft2d_rel(f, rescale, logsize, src, b),
    ensures
        a == b,
{
    let n = pow2(logsize);
    let spatial_a = choose|m: Seq<Texel>|
        #[trigger] stages_rel(f, logsize, 2 * logsize, src, m) && permute_rel(rescale, n, m, a);
    let spatial_b = choose|m: Seq<Texel>|
        #[trigger] stages_rel(f, logsize, 2 * logsize, src, m) && permute_rel(rescale, n, m, b);
    lemma_stages_determined(f, logsize, 2 * logsize, src, spatial_a, spatial_b);
    lemma_permute_determined(rescale, n, spatial_a, a, b);
}

/// Runs one butterfly stage over the whole of `src` and returns the result.
fn butterfly_pass<F: Fn(Complex, Complex, u32, u32) -> Complex>(
    vertical: bool,
    stage: u32,
    table: &ButterflyTable,
    src: &Texture,
    butterfly: &F,
) -> (out: Texture)
    requires
        table.wf(),
        stage < table.spec_grid().spec_logsize(),
        src.is_square(table.spec_grid().spec_size()),
        kernel_total(butterfly),
    ensures
        out.is_square(table.spec_grid().spec_size()),
        step_rel(
            butterfly,
            table.spec_grid().spec_logsize() as nat,
            vertical,
            stage as nat,
            src@,
            out@,
        ),
{
    let grid = table.grid();
    let n = grid.size();
    let ghost logsize = grid.spec_logsize() as nat;
    let mut texels: Vec<Texel> = Vec::new();
    proof {
        lemma_grid_bounds(grid);
    }
    let mut y: u32 = 0;
    while y < n
        invariant
            table.wf(),
            grid == table.spec_grid(),
            n == grid.spec_size(),
            logsize == grid.spec_logsize(),
            stage < grid.spec_logsize(),
            src.is_square(n),
            kernel_total(butterfly),
            y <= n,
            texels@.len() == y * n,
            forall|a: nat, b: nat|
                a < n && b < y ==> butterfly_out(
                    butterfly,
                    logsize,
                    vertical,
                    stage as nat,
                    src@,
                    a,
                    b,
                    #[trigger] texels@[texel_index(n as nat, a, b)],
                ),
        decreases n - y,
    {
        let mut x: u32 = 0;
        while x < n
            invariant
                table.wf(),
                grid == table.spec_grid(),
                n == grid.spec_size(),
                logsize == grid.spec_logsize(),
                stage < grid.spec_logsize(),
                src.is_square(n),
                kernel_total(butterfly),
                y < n,
                x <= n,
                texels@.len() == y * n + x,
                forall|a: nat, b: nat|
                    a < n && b < y ==> butterfly_out(
                        butterfly,
                        logsize,
                        vertical,
                        stage as nat,
                        src@,
                        a,
                        b,
                        #[trigger] texels@[texel_index(n as nat, a, b)],
                    ),
                forall|a: nat|
                    a < x ==> butterfly_out(
                        butterfly,
                        logsize,
                        vertical,
                        stage as nat,
                        src@,
                        a,
                        y as nat,
                        #[trigger] texels@[texel_index(n as nat, a, y as nat)],
                    ),
            decreases n - x,
        {
            let ghost before = texels@;
            let line = if vertical {
                y
            } else {
                x
            };
            let e = table.entry(stage, line);
            let top = if vertical {
                src.read(x, e.src_top)
            } else {
                src.read(e.src_top, y)
            };
            let bottom = if vertical {
                src.read(x, e.src_bottom)
            } else {
                src.read(e.src_bottom, y)
            };
            let h0 = butterfly(top.xy(), bottom.xy(), e.twiddle, n);
            let h1 = butterfly(top.zw(), bottom.zw(), e.twiddle, n);
            texels.push(Texel::pack(h0, h1));
            proof {
                assert forall|a: nat, b: nat| a < n && b < y implies 0 <= (#[trigger] texel_index(
                    n as nat,
                    a,
                    b,
                )) < before.len() by {
                    lemma_texel_index_bound(n as nat, y as nat, a, b);
                    assert(n * y == y * n) by (nonlinear_arith);
                }
            }
            x = x + 1;
        }
        proof {
            assert((y + 1) * n == y * n + n) by (nonlinear_arith);
        }
        y = y + 1;
    }
    Texture::from_texels(n, n, texels)
}

/// One horizontal butterfly stage.
///
/// With `data.pingpong == 0` the stage reads `pingpong0` and overwrites
/// `pingpong1`; with `data.pingpong == 1` the roles are swapped. Any other
/// value selects neither, and nothing is written.
pub fn hstep_ifft<F: Fn(Complex, Complex, u32, u32) -> Complex>(
    data: &FFTData,
    table: &ButterflyTable,
    pingpong0: &mut Texture,
    pingpong1: &mut Texture,
    butterfly: &F,
)
    requires
        table.wf(),
        data.stage < table.spec_grid().spec_logsize(),
        old(pingpong0).is_square(table.spec_grid().spec_size()),
        old(pingpong1).is_square(table.spec_grid().spec_size()),
        kernel_total(butterfly),
    ensures
        final(pingpong0).is_square(table.spec_grid().spec_size()),
        final(pingpong1).is_square(table.spec_grid().spec_size()),
        data.pingpong == 0 ==> final(pingpong0)@ == old(pingpong0)@ && step_rel(
            butterfly,
            table.spec_grid().spec_logsize() as nat,
            false,
            data.stage as nat,
            old(pingpong0)@,
            final(pingpong1)@,
        ),
        data.pingpong == 1 ==> final(pingpong1)@ == old(pingpong1)@ && step_rel(
            butterfly,
            table.spec_grid().spec_logsize() as nat,
            false,
            data.stage as nat,
            old(pingpong1)@,
            final(pingpong0)@,
        ),
        data.pingpong > 1 ==> final(pingpong0)@ == old(pingpong0)@ && final(pingpong1)@ == old(
            pingpong1,
        )@,
{
    if data.pingpong == 0 {
        *pingpong1 = butterfly_pass(false, data.stage, table, pingpong0, butterfly);
    } else if data.pingpong == 1 {
        *pingpong0 = butterfly_pass(false, data.stage, table, pingpong1, butterfly);
    }
}

/// One vertical butterfly stage; the buffers are selected as in `hstep_ifft`.
pub fn vstep_ifft<F: Fn(Complex, Complex, u32, u32) -> Complex>(
    data: &FFTData,
    table: &ButterflyTable,
    pingpong0: &mut Texture,
    pingpong1: &mut Texture,
    butterfly: &F,
)
    requires
        table.wf(),
        data.stage < table.spec_grid().spec_logsize(),
        old(pingpong0).is_square(table.spec_grid().spec_size()),
        old(pingpong1).is_square(table.spec_grid().spec_size()),
        kernel_total(butterfly),
    ensures
        final(pingpong0).is_square(table.spec_grid().spec_size()),
        final(pingpong1).is_square(table.spec_grid().spec_size()),
        data.pingpong == 0 ==> final(pingpong0)@ == old(pingpong0)@ && step_rel(
            butterfly,
            table.spec_grid().spec_logsize() as nat,
            true,
            data.stage as nat,
            old(pingpong0)@,
            final(pingpong1)@,
        ),
        data.pingpong == 1 ==> final(pingpong1)@ == old(pingpong1)@ && step_rel(
            butterfly,
            table.spec_grid().spec_logsize() as nat,
            true,
            data.stage as nat,
            old(pingpong1)@,
            final(pingpong0)@,
        ),
        data.pingpong > 1 ==> final(pingpong0)@ == old(pingpong0)@ && final(pingpong1)@ == old(
            pingpong1,
        )@,
{
    if data.pingpong == 0 {
        *pingpong1 = butterfly_pass(true, data.stage, table, pingpong0, butterfly);
    } else if data.pingpong == 1 {
        *pingpong0 = butterfly_pass(true, data.stage, table, pingpong1, butterfly);
    }
}

/// The last pass of a transform: keeps the real parts of the two signals
/// packed in each texel of `pingpong0`, scaled by the kernel `rescale` and
/// negated on the odd squares of the checkerboard.
pub fn permute<S: Fn(u32) -> u32>(pingpong0: &mut Texture, rescale: &S)
    requires
        old(pingpong0).wf(),
        old(pingpong0).spec_width() == old(pingpong0).spec_height(),
        rescale_total(rescale),
    ensures
        final(pingpong0).is_square(old(pingpong0).spec_width()),
        permute_rel(
            rescale,
            old(pingpong0).spec_width() as nat,
            old(pingpong0)@,
            final(pingpong0)@,
        ),
{
    let n = pingpong0.width();
    let ghost src = pingpong0@;
    let mut texels: Vec<Texel> = Vec::new();
    let mut y: u32 = 0;
    while y < n
        invariant
            pingpong0.is_square(n),
            pingpong0@ == src,
            rescale_total(rescale),
            y <= n,
            texels@.len() == y * n,
            forall|i: int|
                0 <= i < texels@.len() ==> permute_texel_rel(
                    rescale,
                    src[i],
                    (i % (n as int)) as nat,
                    (i / (n as int)) as nat,
                    #[trigger] texels@[i],
                ),
        decreases n - y,
    {
        let mut x: u32 = 0;
        while x < n
            invariant
                pingpong0.is_square(n),
                pingpong0@ == src,
                rescale_total(rescale),
                y < n,
                x <= n,
                texels@.len() == y * n + x,
                forall|i: int|
                    0 <= i < texels@.len() ==> permute_texel_rel(
                        rescale,
                        src[i],
                        (i % (n as int)) as nat,
                        (i / (n as int)) as nat,
                        #[trigger] texels@[i],
                    ),
            decreases n - x,
        {
            let t = pingpong0.read(x, y);
            let first = rescale(t.x);
            let second = rescale(t.z);
            let odd = (x % 2) != (y % 2);
            let out = if odd {
                Texel { x: negate(first), y: negate(second), z: ZERO_BITS, w: ONE_BITS }
            } else {
                Texel { x: first, y: second, z: ZERO_BITS, w: ONE_BITS }
            };
            proof {
                let i = texel_index(n as nat, x as nat, y as nat);
                lemma_texel_index_bound(n as nat, n as nat, x as nat, y as nat);
                vstd::arithmetic::div_mod::lemma_fundamental_div_mod_converse(
                    i,
                    n as int,
                    y as int,
                    x as int,
                );
                assert(out == permuted_texel(
                    Texel { x: first, y: t.y, z: second, w: t.w },
                    x as nat,
                    y as nat,
                ));
                assert(permute_texel_rel(rescale, src[i], x as nat, y as nat, out));
            }
            texels.push(out);
            x = x + 1;
        }
        proof {
            assert((y + 1) * n == y * n + n) by (nonlinear_arith);
        }
        y = y + 1;
    }
    *pingpong0 = Texture::from_texels(n, n, texels);
}

/// Whether the two textures can be what one butterfly stage leaves of them:
/// with `data.pingpong == 0` the field is read and kept and the scratch
/// texture is written, with `data.pingpong == 1` the other way round, and
/// with any other value both are kept.
pub open spec fn pingpong_step_rel<F: Fn(Complex, Complex, u32, u32) -> Complex>(
    f: &F,
    logsize: nat,
    vertical: bool,
    data: FFTData,
    field_before: Seq<Texel>,
    scratch_before: Seq<Texel>,
    field_after: Seq<Texel>,
    scratch_after: Seq<Texel>,
) -> bool {
    if data.pingpong == 0 {
        field_after == field_before && step_rel(
            f,
            logsize,
            vertical,
            data.stage as nat,
            field_before,
            scratch_after,
        )
    } else if data.pingpong == 1 {
        scratch_after == scratch_before && step_rel(
            f,
            logsize,
            vertical,
            data.stage as nat,
            scratch_before,
            field_after,
        )
    } else {
        field_after == field_before && scratch_after == scratch_before
    }
}

/// The transform engine: owns the second ping-pong texture.
pub struct FourierTransform {
    pingpong1: Texture,
}

impl FourierTransform {
    /// The scratch texture is well formed and `size` texels wide and high.
    pub closed spec fn fits(&self, size: u32) -> bool {
        self.pingpong1.is_square(size)
    }

    /// The texels of the scratch texture.
    pub closed spec fn scratch(&self) -> Seq<Texel> {
        self.pingpong1@
    }

    /// One butterfly stage, horizontal or vertical, between the field in
    /// `pingpong0` and the scratch texture.
    pub fn step<F: Fn(Complex, Complex, u32, u32) -> Complex>(
        &mut self,
        vertical: bool,
        data: &FFTData,
        table: &ButterflyTable,
        pingpong0: &mut Texture,
        butterfly: &F,
    )
        requires
            table.wf(),
            data.stage < table.spec_grid().spec_logsize(),
            old(self).fits(table.spec_grid().spec_size()),
            old(pingpong0).is_square(table.spec_grid().spec_size()),
            kernel_total(butterfly),
        ensures
            final(self).fits(table.spec_grid().spec_size()),
            final(pingpong0).is_square(table.spec_grid().spec_size()),
            pingpong_step_rel(
                butterfly,
                table.spec_grid().spec_logsize() as nat,
                vertical,
                *data,
                old(pingpong0)@,
                old(self).scratch(),
                final(pingpong0)@,
                final(self).scratch(),
            ),
    {
        if vertical {
            vstep_ifft(data, table, pingpong0, &mut self.pingpong1, butterfly);
        } else {
            hstep_ifft(data, table, pingpong0, &mut self.pingpong1, butterfly);
        }
    }

    /// An engine for fields on `grid`.
    pub fn new(grid: &Grid) -> (fft: FourierTransform)
        requires
            grid.wf(),
        ensures
            fft.fits(grid.spec_size()),
    {
        proof {
            lemma_grid_bounds(*grid);
        }
        FourierTransform { pingpong1: Texture::new_storage(grid.size(), grid.size()) }
    }

    /// Transforms the field in `pingpong0` in place: all horizontal stages in
    /// order, then all vertical stages in order, alternating between
    /// `pingpong0` and the scratch texture, and last the scaling and sign
    /// correction.
    ///
    /// The number of stages is even, so the last stage writes `pingpong0`,
    /// which is where the sign correction expects its input.
    pub fn ifft2d<F: Fn(Complex, Complex, u32, u32) -> Complex, S: Fn(u32) -> u32>(
        &mut self,
        table: &ButterflyTable,
        pingpong0: &mut Texture,
        butterfly: &F,
        rescale: &S,
    )
        requires
            table.wf(),
            old(self).fits(table.spec_grid().spec_size()),
            old(pingpong0).is_square(table.spec_grid().spec_size()),
            kernel_total(butterfly),
            rescale_total(rescale),
        ensures
            final(self).fits(table.spec_grid().spec_size()),
            final(pingpong0).is_square(table.spec_grid().spec_size()),
            ifft2d_rel(
                butterfly,
                rescale,
                table.spec_grid().spec_logsize() as nat,
                old(pingpong0)@,
                final(pingpong0)@,
            ),
    {
        let logsize = table.grid().logsize();
        let ghost n = table.spec_grid().spec_size();
        let ghost src = pingpong0@;
        let ghost l = logsize as nat;
        let mut data = FFTData { stage: 0, pingpong: 0 };
        let mut stage: u32 = 0;
        while stage < logsize
            invariant
                table.wf(),
                logsize == table.spec_grid().spec_logsize(),
                l == logsize,
                n == table.spec_grid().spec_size(),
                kernel_total(butterfly),
                stage <= logsize,
                data.pingpong == stage % 2,
                self.pingpong1.is_square(n),
                pingpong0.is_square(n),
                stages_rel(
                    butterfly,
                    l,
                    stage as nat,
                    src,
                    if data.pingpong == 0 {
                        pingpong0@
                    } else {
                        self.pingpong1@
                    },
                ),
            decreases logsize - stage,
        {
            let ghost mid = if data.pingpong == 0 {
                pingpong0@
            } else {
                self.pingpong1@
            };
            data.stage = stage;
            hstep_ifft(&data, table, pingpong0, &mut self.pingpong1, butterfly);
            data.pingpong = (data.pingpong + 1) % 2;
            proof {
                let dst = if data.pingpong == 0 {
                    pingpong0@
                } else {
                    self.pingpong1@
                };
                lemma_stages_extend(butterfly, l, stage as nat, src, mid, dst);
            }
            stage = stage + 1;
        }
        let mut stage: u32 = 0;
        while stage < logsize
            invariant
                table.wf(),
                logsize == table.spec_grid().spec_logsize(),
                l == logsize,
                n == table.spec_grid().spec_size(),
                kernel_total(butterfly),
                stage <= logsize,
                data.pingpong == (logsize + stage) % 2,
                self.pingpong1.is_square(n),
                pingpong0.is_square(n),
                stages_rel(
                    butterfly,
                    l,
                    (logsize + stage) as nat,
                    src,
                    if data.pingpong == 0 {
                        pingpong0@
                    } else {
                        self.pingpong1@
                    },
                ),
            decreases logsize - stage,
        {
            let ghost mid = if data.pingpong == 0 {
                pingpong0@
            } else {
                self.pingpong1@
            };
            data.stage = stage;
            vstep_ifft(&data, table, pingpong0, &mut self.pingpong1, butterfly);
            data.pingpong = (data.pingpong + 1) % 2;
            proof {
                let dst = if data.pingpong == 0 {
                    pingpong0@
                } else {
                    self.pingpong1@
                };
                let i = (logsize + stage) as nat;
                lemma_stages_extend(butterfly, l, i, src, mid, dst);
            }
            stage = stage + 1;
        }
        let ghost spatial = pingpong0@;
        assert(data.pingpong == 0);
        permute(pingpong0, rescale);
        proof {
            assert(stages_rel(butterfly, l, 2 * l, src, spatial));
        }
    }
}

} // verus!
