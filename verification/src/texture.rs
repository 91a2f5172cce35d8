//! Texels and storage textures.
//!
//! A texel has four 32-bit lanes. Each lane carries an IEEE-754 single as its
//! raw bit pattern: the library moves lanes around and flips sign bits, both
//! of which are exact on the bit pattern, and leaves all rounding arithmetic
//! to the kernels that its callers supply.

use vstd::prelude::*;

verus! {

/// Bit pattern of `+0.0`.
pub const ZERO_BITS: u32 = 0;

/// Bit pattern of `1.0`.
pub const ONE_BITS: u32 = 0x3f80_0000;

/// The sign bit of a single.
pub const SIGN_BIT: u32 = 0x8000_0000;

/// The pattern of the negated number: the same bits with the sign bit flipped.
pub open spec fn negated(bits: u32) -> u32 {
    bits ^ SIGN_BIT
}

/// Flips the sign bit.
pub fn negate(bits: u32) -> (r: u32)
    ensures
        r == negated(bits),
{
    bits ^ SIGN_BIT
}

/// Negating twice gives back the pattern.
pub proof fn lemma_negated_twice(bits: u32)
    ensures
        negated(negated(bits)) == bits,
{
    assert((bits ^ 0x8000_0000u32) ^ 0x8000_0000u32 == bits) by (bit_vector);
}

/// A complex number: real and imaginary part, each as a bit pattern.
#[derive(Clone, Copy, PartialEq, Eq, Structural, Debug)]
pub struct Complex {
    /// Real part.
    pub re: u32,
    /// Imaginary part.
    pub im: u32,
}

impl Complex {
    /// The complex conjugate: the imaginary part negated.
    pub open spec fn spec_conj(self) -> Complex {
        Complex { re: self.re, im: negated(self.im) }
    }

    /// The complex conjugate: the imaginary part negated.
    #[verifier::when_used_as_spec(spec_conj)]
    pub fn conj(self) -> (c: Complex)
        ensures
            c == self.spec_conj(),
    {
        Complex { re: self.re, im: negate(self.im) }
    }

    /// The number `0 + 0i`.
    pub open spec fn spec_zero() -> Complex {
        Complex { re: ZERO_BITS, im: ZERO_BITS }
    }

    /// The number `0 + 0i`.
    #[verifier::when_used_as_spec(spec_zero)]
    pub fn zero() -> (c: Complex)
        ensures
            c == Complex::spec_zero(),
    {
        Complex { re: ZERO_BITS, im: ZERO_BITS }
    }
}

/// Conjugating twice gives back the number.
pub proof fn lemma_conj_twice(c: Complex)
    ensures
        c.spec_conj().spec_conj() == c,
{
    lemma_negated_twice(c.im);
}

/// Three lanes: a vector in space, each component as a bit pattern.
#[derive(Clone, Copy, PartialEq, Eq, Structural, Debug)]
pub struct Vec3 {
    /// First component.
    pub x: u32,
    /// Second component.
    pub y: u32,
    /// Third component.
    pub z: u32,
}

/// One texel of a four-lane storage texture.
#[derive(Clone, Copy, PartialEq, Eq, Structural, Debug)]
pub struct Texel {
    /// First lane.
    pub x: u32,
    /// Second lane.
    pub y: u32,
    /// Third lane.
    pub z: u32,
    /// Fourth lane.
    pub w: u32,
}

impl Texel {
    /// The texel with all four lanes `+0.0`.
    pub open spec fn spec_zero() -> Texel {
        Texel { x: ZERO_BITS, y: ZERO_BITS, z: ZERO_BITS, w: ZERO_BITS }
    }

    /// The texel with all four lanes `+0.0`.
    #[verifier::when_used_as_spec(spec_zero)]
    pub fn zero() -> (t: Texel)
        ensures
            t == Texel::spec_zero(),
    {
        Texel { x: ZERO_BITS, y: ZERO_BITS, z: ZERO_BITS, w: ZERO_BITS }
    }

    /// The complex number in the first two lanes.
    pub open spec fn spec_xy(self) -> Complex {
        Complex { re: self.x, im: self.y }
    }

    /// The complex number in the first two lanes.
    #[verifier::when_used_as_spec(spec_xy)]
    pub fn xy(self) -> (c: Complex)
        ensures
            c == self.spec_xy(),
    {
        Complex { re: self.x, im: self.y }
    }

    /// The complex number in the last two lanes.
    pub open spec fn spec_zw(self) -> Complex {
        Complex { re: self.z, im: self.w }
    }

    /// The complex number in the last two lanes.
    #[verifier::when_used_as_spec(spec_zw)]
    pub fn zw(self) -> (c: Complex)
        ensures
            c == self.spec_zw(),
    {
        Complex { re: self.z, im: self.w }
    }

    /// The texel that packs `a` into the first two lanes and `b` into the last two.
    pub open spec fn spec_pack(a: Complex, b: Complex) -> Texel {
        Texel { x: a.re, y: a.im, z: b.re, w: b.im }
    }

    /// The texel that packs `a` into the first two lanes and `b` into the last two.
    #[verifier::when_used_as_spec(spec_pack)]
    pub fn pack(a: Complex, b: Complex) -> (t: Texel)
        ensures
            t == Texel::spec_pack(a, b),
    {
        Texel { x: a.re, y: a.im, z: b.re, w: b.im }
    }
}

/// Position of texel `(x, y)` in the row-major storage of a texture `width` wide.
pub open spec fn texel_index(width: nat, x: nat, y: nat) -> int {
    (y * width + x) as int
}

/// A coordinate inside a `width` by `height` texture has its index below `width * height`.
pub proof fn lemma_texel_index_bound(width: nat, height: nat, x: nat, y: nat)
    requires
        x < width,
        y < height,
    ensures
        0 <= texel_index(width, x, y) < width * height,
{
    assert(y * width + x < width * height) by (nonlinear_arith)
        requires
            x < width,
            y < height,
    ;
}

/// Every index below `width * height` is the index of one coordinate inside
/// the texture: column `i mod width`, row `i / width`.
pub proof fn lemma_index_coordinates(width: nat, height: nat, i: int)
    requires
        0 <= i < width * height,
    ensures
        0 <= i % (width as int) < width,
        0 <= i / (width as int) < height,
        texel_index(width, (i % (width as int)) as nat, (i / (width as int)) as nat) == i,
{
    let w = width as int;
    let h = height as int;
    assert(w > 0) by (nonlinear_arith)
        requires
            0 <= i < w * h,
            w >= 0,
    ;
    let q = i / w;
    let r = i % w;
    vstd::arithmetic::div_mod::lemma_fundamental_div_mod(i, w);
    vstd::arithmetic::div_mod::lemma_mod_bound(i, w);
    assert(w * q == q * w) by (nonlinear_arith);
    assert(0 <= q && q < h) by (nonlinear_arith)
        requires
            0 <= i,
            i < w * h,
            i == w * q + r,
            0 <= r,
            r < w,
    ;
}

/// A two-dimensional storage texture, held row by row.
pub struct Texture {
    width: u32,
    height: u32,
    texels: Vec<Texel>,
}

impl View for Texture {
    type V = Seq<Texel>;

    /// The texels in row-major order.
    closed spec fn view(&self) -> Seq<Texel> {
        self.texels@
    }
}

impl Texture {
    /// Number of columns.
    pub closed spec fn spec_width(&self) -> u32 {
        self.width
    }

    /// Number of rows.
    pub closed spec fn spec_height(&self) -> u32 {
        self.height
    }

    /// The storage holds exactly `width * height` texels.
    pub open spec fn wf(&self) -> bool {
        self@.len() == self.spec_width() * self.spec_height()
    }

    /// Whether the texture is well formed and `size` texels wide and high.
    pub open spec fn is_square(&self, size: u32) -> bool {
        &&& self.wf()
        &&& self.spec_width() == size
        &&& self.spec_height() == size
    }

    /// The texel at column `x`, row `y`.
    pub open spec fn at(&self, x: nat, y: nat) -> Texel {
        self@[texel_index(self.spec_width() as nat, x, y)]
    }

    /// A texture of the given extent with every lane `+0.0`.
    pub fn new_storage(width: u32, height: u32) -> (tex: Texture)
        requires
            width * height <= usize::MAX,
        ensures
            tex.wf(),
            tex.spec_width() == width,
            tex.spec_height() == height,
            forall|i: int| 0 <= i < tex@.len() ==> tex@[i] == Texel::spec_zero(),
    {
        let count = (width as usize) * (height as usize);
        let mut texels: Vec<Texel> = Vec::new();
        let mut i: usize = 0;
        while i < count
            invariant
                i <= count,
                texels@.len() == i,
                forall|j: int| 0 <= j < i ==> texels@[j] == Texel::spec_zero(),
            decreases count - i,
        {
            texels.push(Texel::zero());
            i = i + 1;
        }
        Texture { width, height, texels }
    }

    /// The texture of the given extent whose row-major contents are `texels`.
    pub fn from_texels(width: u32, height: u32, texels: Vec<Texel>) -> (tex: Texture)
        requires
            texels@.len() == width * height,
        ensures
            tex.wf(),
            tex.spec_width() == width,
            tex.spec_height() == height,
            tex@ == texels@,
    {
        Texture { width, height, texels }
    }

    /// Number of columns.
    #[verifier::when_used_as_spec(spec_width)]
    pub fn width(&self) -> (w: u32)
        ensures
            w == self.spec_width(),
    {
        self.width
    }

    /// Number of rows.
    #[verifier::when_used_as_spec(spec_height)]
    pub fn height(&self) -> (h: u32)
        ensures
            h == self.spec_height(),
    {
        self.height
    }

    /// Number of texels held.
    pub fn len(&self) -> (n: usize)
        ensures
            n == self@.len(),
    {
        self.texels.len()
    }

    /// Reads the texel at position `i` of the row-major storage.
    pub fn fetch(&self, i: usize) -> (t: Texel)
        requires
            i < self@.len(),
        ensures
            t == self@[i as int],
    {
        self.texels[i]
    }

    /// Reads the texel at column `x`, row `y`.
    pub fn read(&self, x: u32, y: u32) -> (t: Texel)
        requires
            self.wf(),
            x < self.spec_width(),
            y < self.spec_height(),
        ensures
            t == self.at(x as nat, y as nat),
    {
        let len = self.texels.len();
        proof {
            lemma_texel_index_bound(self.width as nat, self.height as nat, x as nat, y as nat);
            assert(y * self.width <= texel_index(self.width as nat, x as nat, y as nat) < len);
        }
        let i = (y as usize) * (self.width as usize) + (x as usize);
        self.texels[i]
    }

    /// Overwrites the texel at column `x`, row `y`; every other texel is kept.
    pub fn write(&mut self, x: u32, y: u32, texel: Texel)
        requires
            old(self).wf(),
            x < old(self).spec_width(),
            y < old(self).spec_height(),
        ensures
            final(self).wf(),
            final(self).spec_width() == old(self).spec_width(),
            final(self).spec_height() == old(self).spec_height(),
            final(self)@ == old(self)@.update(
                texel_index(old(self).spec_width() as nat, x as nat, y as nat),
                texel,
            ),
    {
        let len = self.texels.len();
        proof {
            lemma_texel_index_bound(self.width as nat, self.height as nat, x as nat, y as nat);
            assert(y * self.width <= texel_index(self.width as nat, x as nat, y as nat) < len);
        }
        let i = (y as usize) * (self.width as usize) + (x as usize);
        self.texels.set(i, texel);
    }
}

} // verus!
