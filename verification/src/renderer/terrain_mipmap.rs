use vstd::prelude::*;

verus! {

/// The integer base-2 logarithm of `n` (`n.ilog2()` for `n > 0`).
pub open spec fn log2_floor(n: nat) -> nat
    decreases n,
{
    if n < 2 {
        0
    } else {
        1 + log2_floor(n / 2)
    }
}

/// 2 to the power `k`.
pub open spec fn two_pow(k: nat) -> nat
    decreases k,
{
    if k == 0 {
        1
    } else {
        2 * two_pow((k - 1) as nat)
    }
}

proof fn lemma_log2_below(n: nat, k: nat)
    requires
        k >= 1,
        n < two_pow(k),
    ensures
        log2_floor(n) < k,
    decreases k,
{
    assert(two_pow(0) == 1);
    if n >= 2 && k > 1 {
        let t = two_pow((k - 1) as nat);
        assert(n / 2 < t) by (nonlinear_arith)
            requires
                n < 2 * t,
        ;
        lemma_log2_below(n / 2, (k - 1) as nat);
    }
}

proof fn lemma_u32_log2(n: u32)
    ensures
        log2_floor(n as nat) < 32,
{
    reveal_with_fuel(two_pow, 33);
    assert(two_pow(32) == 4294967296);
    lemma_log2_below(n as nat, 32);
}

/// The integer base-2 logarithm of a positive `n`, as `u32::ilog2` computes it.
pub fn floor_log2(n: u32) -> (r: u32)
    requires
        n > 0,
    ensures
        r == log2_floor(n as nat),
{
    let mut m = n;
    let mut r: u32 = 0;
    proof {
        lemma_u32_log2(n);
    }
    while m >= 2
        invariant
            m > 0,
            r + log2_floor(m as nat) == log2_floor(n as nat),
            r <= 32,
            log2_floor(n as nat) <= 32,
        decreases m,
    {
        m = m / 2;
        r = r + 1;
    }
    r
}

/// One compute pass of the mipmap generator: writes mip level `level` of a layer from
/// level `level - 1`.
#[derive(Debug, Clone, Copy)]
pub struct MipPass {
    pub level: u32,
    pub width: u32,
    pub height: u32,
    pub workgroups_x: u32,
    pub workgroups_y: u32,
}

/// Workgroups of 8 threads that cover `n` texels.
pub open spec fn groups_of_8(n: int) -> int {
    (n + 7) / 8
}

/// The passes for levels 1 to `upto` of a `width` x `height` texture: level `l` is
/// `width >> l` by `height >> l` and is skipped when either is 0; each pass covers its
/// level with 8 x 8 workgroups.
pub open spec fn mip_passes_upto(width: u32, height: u32, upto: nat) -> Seq<MipPass>
    decreases upto,
{
    if upto == 0 {
        Seq::empty()
    } else {
        let l = upto as u32;
        let w = width >> l;
        let h = height >> l;
        let earlier = mip_passes_upto(width, height, (upto - 1) as nat);
        if w == 0 || h == 0 {
            earlier
        } else {
            earlier.push(
                MipPass {
                    level: l,
                    width: w,
                    height: h,
                    workgroups_x: groups_of_8(w as int) as u32,
                    workgroups_y: groups_of_8(h as int) as u32,
                },
            )
        }
    }
}

/// Each pass writes a level that exists (at least one texel each way), later passes write
/// higher levels, each level is the texture's size halved once per level, and the
/// workgroups of a pass cover its level with less than one group to spare.
pub proof fn law_mip_passes_cover(width: u32, height: u32, upto: nat)
    requires
        upto < 32,
    ensures
        forall|k: int|
            0 <= k < mip_passes_upto(width, height, upto).len() ==> {
                let p = #[trigger] mip_passes_upto(width, height, upto)[k];
                &&& 1 <= p.level <= upto
                &&& p.width == width >> p.level && p.height == height >> p.level
                &&& p.width >= 1 && p.height >= 1
                &&& 8 * p.workgroups_x >= p.width && 8 * (p.workgroups_x - 1) < p.width
                &&& 8 * p.workgroups_y >= p.height && 8 * (p.workgroups_y - 1) < p.height
            },
        forall|a: int, b: int|
            0 <= a < b < mip_passes_upto(width, height, upto).len() ==> mip_passes_upto(
                width,
                height,
                upto,
            )[a].level < mip_passes_upto(width, height, upto)[b].level,
    decreases upto,
{
    if upto > 0 {
        law_mip_passes_cover(width, height, (upto - 1) as nat);
        let earlier = mip_passes_upto(width, height, (upto - 1) as nat);
        let l = upto as u32;
        let w = width >> l;
        let h = height >> l;
        assert((w as int + 7) / 8 * 8 >= w && ((w as int + 7) / 8 - 1) * 8 < w);
        assert((h as int + 7) / 8 * 8 >= h && ((h as int + 7) / 8 - 1) * 8 < h);
        assert((upto as u32) as nat == upto);
    }
}

/// The larger of two sizes.
pub open spec fn max_u32(a: u32, b: u32) -> u32 {
    if a >= b {
        a
    } else {
        b
    }
}

/// The compute passes that build the mipmaps of one texture layer: one per level from 1
/// to `ilog2(max(width, height))`, each reading the level before it.
pub fn mip_passes(width: u32, height: u32) -> (passes: Vec<MipPass>)
    requires
        width > 0 || height > 0,
    ensures
        passes@ == mip_passes_upto(width, height, log2_floor(max_u32(width, height) as nat)),
{
    let max_dim = if width >= height {
        width
    } else {
        height
    };
    let mip_count = floor_log2(max_dim);
    proof {
        lemma_u32_log2(max_dim);
    }
    let mut passes: Vec<MipPass> = Vec::new();
    let mut mip_level: u32 = 1;
    while mip_level <= mip_count
        invariant
            1 <= mip_level <= mip_count + 1,
            mip_count == log2_floor(max_u32(width, height) as nat),
            mip_count < 32,
            passes@ == mip_passes_upto(width, height, (mip_level - 1) as nat),
        decreases mip_count + 1 - mip_level,
    {
        let dst_width = width >> mip_level;
        let dst_height = height >> mip_level;
        if dst_width != 0 && dst_height != 0 {
            let workgroups_x = dst_width / 8 + if dst_width % 8 != 0 { 1 } else { 0 };
            let workgroups_y = dst_height / 8 + if dst_height % 8 != 0 { 1 } else { 0 };
            assert(workgroups_x == groups_of_8(dst_width as int));
            assert(workgroups_y == groups_of_8(dst_height as int));
            passes.push(
                MipPass {
                    level: mip_level,
                    width: dst_width,
                    height: dst_height,
                    workgroups_x,
                    workgroups_y,
                },
            );
        }
        assert((mip_level as nat) as u32 == mip_level);
        mip_level = mip_level + 1;
    }
    passes
}

} // verus!
