use vstd::prelude::*;

use bevy_math::Mat4;

use crate::volume::ExtractedGiVolume;

verus! {

/// Settings of one volume as the shaders read them from a uniform buffer.
/// The std140 image of this value is written on the host side.
#[derive(Clone, Copy)]
pub struct GpuGiVolume {
    /// Bit pattern of the single-precision edge length of the finest LOD.
    pub size_bits: u32,
    pub num_lods: u32,
    pub resolution: u32,
    pub view_projection: Mat4,
}

/// Which LOD a LOD-generation dispatch writes.
#[derive(Clone, Copy, Debug, PartialEq, Eq, Structural)]
pub struct GpuMipMap {
    pub level: u32,
}

impl GpuGiVolume {
    pub open spec fn of(v: ExtractedGiVolume) -> GpuGiVolume {
        GpuGiVolume {
            size_bits: v.size_bits,
            num_lods: v.num_lods as u32,
            resolution: v.resolution as u32,
            view_projection: v.transform,
        }
    }

    /// The uniform that carries the settings of `v`.
    pub fn from_extracted(v: &ExtractedGiVolume) -> (r: GpuGiVolume)
        ensures
            r == GpuGiVolume::of(*v),
    {
        GpuGiVolume {
            size_bits: v.size_bits,
            num_lods: v.num_lods as u32,
            resolution: v.resolution as u32,
            view_projection: v.transform,
        }
    }
}

/// Level uniforms of the LOD chain of a volume with `num_lods` LODs: one for
/// each level from 1 to `num_lods - 1`, in increasing order.
pub open spec fn mip_uniforms(num_lods: u8) -> Seq<GpuMipMap> {
    Seq::new(
        if num_lods > 1 { (num_lods - 1) as nat } else { 0 },
        |i: int| GpuMipMap { level: (i + 1) as u32 },
    )
}

/// Builds the level uniforms of the LOD chain.
pub fn build_mip_uniforms(num_lods: u8) -> (r: Vec<GpuMipMap>)
    ensures
        r@ == mip_uniforms(num_lods),
{
    let mut r: Vec<GpuMipMap> = Vec::new();
    let mut level: u8 = 1;
    while level < num_lods
        invariant
            1 <= level,
            level <= num_lods || level == 1,
            r@ == Seq::new((level - 1) as nat, |i: int| GpuMipMap { level: (i + 1) as u32 }),
        decreases num_lods - level,
    {
        r.push(GpuMipMap { level: level as u32 });
        level = level + 1;
    }
    assert(r@.len() == mip_uniforms(num_lods).len());
    assert(r@ =~= mip_uniforms(num_lods));
    r
}

} // verus!
