use vstd::prelude::*;

use bevy_math::Mat4;

verus! {

/// Largest number of LOD cascades a volume can have.
pub const MAX_NUM_LODS: u8 = 8;

/// The number of LOD cascades a volume ends up with once the hierarchy's
/// maximum is applied.
pub open spec fn clamped_lods(num_lods: u8) -> u8 {
    if num_lods <= MAX_NUM_LODS {
        num_lods
    } else {
        MAX_NUM_LODS
    }
}

/// Authored description of one GI volume.
#[derive(Clone, Copy, Debug, PartialEq, Eq, Structural)]
pub struct GiVolume {
    /// Edge length of the first (finest) LOD in world units, kept as the bit
    /// pattern of a single-precision IEEE-754 number.
    pub size_bits: u32,
    /// How many LOD cascades the volume has; each one covers twice the extent
    /// of the previous one. At most `MAX_NUM_LODS` are used.
    pub num_lods: u8,
    /// Voxels per axis of each LOD cascade.
    pub resolution: u8,
}

impl Default for GiVolume {
    /// A volume sixteen world units wide (`0x4180_0000`), with four LODs of
    /// 64 voxels per axis.
    fn default() -> (r: GiVolume)
        ensures
            r == (GiVolume { size_bits: 0x4180_0000, num_lods: 4, resolution: 64 }),
    {
        GiVolume { size_bits: 0x4180_0000, num_lods: 4, resolution: 64 }
    }
}

/// Per-frame snapshot of the active volume and its world transform.
#[derive(Clone, Copy)]
pub struct ExtractedGiVolume {
    pub size_bits: u32,
    pub num_lods: u8,
    pub resolution: u8,
    pub transform: Mat4,
}

/// Applies the hierarchy maximum to an authored LOD count.
pub fn clamp_num_lods(num_lods: u8) -> (r: u8)
    ensures
        r == clamped_lods(num_lods),
        r <= MAX_NUM_LODS,
{
    num_lods.min(MAX_NUM_LODS)
}

/// The frame's snapshot of the volumes found in the scene: the first one.
pub open spec fn extracted_of(volumes: Seq<(GiVolume, Mat4)>) -> Option<ExtractedGiVolume> {
    if volumes.len() == 0 {
        None
    } else {
        Some(ExtractedGiVolume::extracted(volumes[0].0, volumes[0].1))
    }
}

/// Takes the frame's snapshot from the `(config, world transform)` pairs
/// found in the scene. Only one volume is supported: the first pair is used
/// and the rest are ignored. No pair, no snapshot.
pub fn extract_volumes(volumes: &Vec<(GiVolume, Mat4)>) -> (r: Option<ExtractedGiVolume>)
    ensures
        r == extracted_of(volumes@),
        volumes@.len() == 0 <==> r is None,
        r matches Some(e) ==> e.num_lods as int == vstd::math::min(
            volumes@[0].0.num_lods as int,
            MAX_NUM_LODS as int,
        ),
{
    if volumes.len() == 0 {
        return None;
    }
    let (volume, transform) = volumes[0];
    Some(ExtractedGiVolume {
        size_bits: volume.size_bits,
        num_lods: clamp_num_lods(volume.num_lods),
        resolution: volume.resolution,
        transform,
    })
}

impl ExtractedGiVolume {
    /// The snapshot taken of `volume` placed at `transform`.
    pub open spec fn extracted(volume: GiVolume, transform: Mat4) -> ExtractedGiVolume {
        ExtractedGiVolume {
            size_bits: volume.size_bits,
            num_lods: clamped_lods(volume.num_lods),
            resolution: volume.resolution,
            transform,
        }
    }
}

} // verus!
