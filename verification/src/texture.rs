//! Texture kinds as the shader assembly sees them, and the layout of the mip
//! levels of block-compressed textures.
use vstd::prelude::*;

verus! {

/// Dimensionality of a texture view (the view types of Vulkan image views).
#[derive(Copy, Clone, Debug, PartialEq, Eq, Structural)]
pub enum TextureView {
    Dim1d,
    Dim1dArray,
    Dim2d,
    Dim2dArray,
    Dim3d,
    Cube,
    CubeArray,
}

impl TextureView {
    /// The GLSL sampler type that reads a view of this kind.
    pub open spec fn spec_glsl_sampler_name(self) -> Seq<char> {
        match self {
            TextureView::Dim1d => "sampler1D"@,
            TextureView::Dim1dArray => "sampler1DArray"@,
            TextureView::Dim2d => "sampler2D"@,
            TextureView::Dim2dArray => "sampler2DArray"@,
            TextureView::Dim3d => "sampler3D"@,
            TextureView::Cube => "samplerCube"@,
            TextureView::CubeArray => "samplerCubeArray"@,
        }
    }

    pub fn glsl_sampler_name(&self) -> (s: &'static str)
        ensures
            s@ == self.spec_glsl_sampler_name(),
    {
        match self {
            TextureView::Dim1d => "sampler1D",
            TextureView::Dim1dArray => "sampler1DArray",
            TextureView::Dim2d => "sampler2D",
            TextureView::Dim2dArray => "sampler2DArray",
            TextureView::Dim3d => "sampler3D",
            TextureView::Cube => "samplerCube",
            TextureView::CubeArray => "samplerCubeArray",
        }
    }
}

#[derive(Clone, Copy, Debug, PartialEq, Eq, Structural)]
pub enum TextureUseCase {
    General,
    Attachment,
    ReadOnly,
    Storage,
}

/// The 4x4 texel blocks that cover a `width` x `height` level.
pub open spec fn level_blocks(width: nat, height: nat) -> nat {
    ((width + 3) / 4) * ((height + 3) / 4)
}

/// The side `s` at mip level `l`: halved `l` times, but never below 1 after the
/// first level.
pub open spec fn mip_side(s: nat, l: nat) -> nat
    decreases l,
{
    if l == 0 {
        s
    } else if mip_side(s, (l - 1) as nat) / 2 >= 1 {
        mip_side(s, (l - 1) as nat) / 2
    } else {
        1
    }
}

/// `s` if it is at least 1, else 1.
pub open spec fn at_least_one(s: nat) -> nat {
    if s >= 1 {
        s
    } else {
        1
    }
}

/// A side is covered by the fewest 4-texel blocks: `level_blocks(w, h)` is the
/// product of the two counts, each the least number of 4-texel blocks that
/// reaches the side.
pub proof fn lemma_blocks_cover(w: nat, h: nat)
    ensures
        level_blocks(w, h) == ((w + 3) / 4) * ((h + 3) / 4),
        4 * ((w + 3) / 4) >= w,
        w > 0 ==> 4 * ((w + 3) / 4) < w + 4,
        w == 0 ==> (w + 3) / 4 == 0,
        4 * ((h + 3) / 4) >= h,
        h > 0 ==> 4 * ((h + 3) / 4) < h + 4,
{
}

/// Each mip level halves the side of the one before it, rounding down, but
/// never goes below one texel.
pub proof fn lemma_mip_halves(s: nat, l: nat)
    ensures
        mip_side(s, 0) == s,
        mip_side(s, l + 1) >= 1,
        mip_side(s, l) >= 2 ==> 2 * mip_side(s, l + 1) <= mip_side(s, l) && mip_side(s, l) <= 2 * mip_side(s, l + 1) + 1,
        mip_side(s, l) < 2 ==> mip_side(s, l + 1) == 1,
{
}

proof fn lemma_mip_side_bound(s: nat, l: nat)
    ensures
        mip_side(s, l) <= at_least_one(s),
    decreases l,
{
    if l > 0 {
        lemma_mip_side_bound(s, (l - 1) as nat);
    }
}

proof fn lemma_level_blocks_mono(a: nat, b: nat, c: nat, d: nat)
    requires
        a <= c,
        b <= d,
    ensures
        level_blocks(a, b) <= level_blocks(c, d),
{
    assert((a + 3) / 4 <= (c + 3) / 4) by (nonlinear_arith)
        requires a <= c;
    assert((b + 3) / 4 <= (d + 3) / 4) by (nonlinear_arith)
        requires b <= d;
    let x = (a + 3) / 4;
    let y = (b + 3) / 4;
    let z = (c + 3) / 4;
    let w = (d + 3) / 4;
    assert(x * y <= z * w) by (nonlinear_arith)
        requires x <= z, y <= w;
}

/// Bytes of each of the `mip_levels` levels of a block-compressed texture whose
/// first level is `width` x `height` and whose blocks take `block_size` bytes,
/// in the order the levels are stored.
pub fn compressed_mip_sizes(width: u32, height: u32, block_size: usize, mip_levels: u32) -> (r: Vec<usize>)
    requires
        at_least_one(width as nat) + 3 <= u32::MAX,
        at_least_one(height as nat) + 3 <= u32::MAX,
        level_blocks(at_least_one(width as nat), at_least_one(height as nat)) <= u32::MAX,
        level_blocks(at_least_one(width as nat), at_least_one(height as nat)) * block_size <= usize::MAX,
    ensures
        r@.len() == mip_levels,
        forall|l: int| 0 <= l < mip_levels ==> #[trigger] r@[l] == level_blocks(
            mip_side(width as nat, l as nat),
            mip_side(height as nat, l as nat),
        ) * block_size,
{
    let mut sizes: Vec<usize> = Vec::new();
    let mut w = width;
    let mut h = height;
    let mut level: u32 = 0;
    let ghost wb = at_least_one(width as nat);
    let ghost hb = at_least_one(height as nat);
    while level < mip_levels
        invariant
            level <= mip_levels,
            sizes@.len() == level,
            w == mip_side(width as nat, level as nat),
            h == mip_side(height as nat, level as nat),
            wb == at_least_one(width as nat),
            hb == at_least_one(height as nat),
            wb + 3 <= u32::MAX,
            hb + 3 <= u32::MAX,
            level_blocks(wb, hb) <= u32::MAX,
            level_blocks(wb, hb) * block_size <= usize::MAX,
            forall|l: int| 0 <= l < level ==> #[trigger] sizes@[l] == level_blocks(
                mip_side(width as nat, l as nat),
                mip_side(height as nat, l as nat),
            ) * block_size,
        decreases mip_levels - level,
    {
        proof {
            lemma_mip_side_bound(width as nat, level as nat);
            lemma_mip_side_bound(height as nat, level as nat);
            lemma_level_blocks_mono(w as nat, h as nat, wb, hb);
        }
        let blocks = ((w + 3) / 4) * ((h + 3) / 4);
        assert(blocks == level_blocks(w as nat, h as nat));
        let b = blocks as usize;
        assert(b * block_size <= level_blocks(wb, hb) * block_size) by (nonlinear_arith)
            requires b <= level_blocks(wb, hb);
        sizes.push(b * block_size);
        w = if w / 2 >= 1 { w / 2 } else { 1 };
        h = if h / 2 >= 1 { h / 2 } else { 1 };
        level = level + 1;
    }
    sizes
}

} // verus!
