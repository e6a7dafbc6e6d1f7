use vstd::prelude::*;

use crate::prepare::ViewGiVolume;
use crate::registry::PipelineKind;

verus! {

/// Invocations per axis of one workgroup of the pass's shaders.
pub const WORKGROUP_SIZE: u32 = 4;

/// What one dispatch of the pass does.
#[derive(Clone, Copy, Debug, PartialEq, Eq, Structural)]
pub enum PassStage {
    Clear,
    Voxelize,
    /// Fills LOD `level` from LOD `level - 1`.
    GenerateMip { level: u32 },
}

/// One compute dispatch of the pass, with the view's settings read at
/// `volume_index` of the frame's volume uniforms.
#[derive(Clone, Copy, Debug, PartialEq, Eq, Structural)]
pub struct DispatchStep {
    pub stage: PassStage,
    pub volume_index: usize,
    pub x: u32,
    pub y: u32,
    pub z: u32,
}

/// Workgroups per axis that cover `resolution` voxels.
pub open spec fn groups_per_axis(resolution: u8) -> u32 {
    ((resolution + WORKGROUP_SIZE - 1) / WORKGROUP_SIZE as int) as u32
}

pub open spec fn pipeline_of(stage: PassStage) -> PipelineKind {
    match stage {
        PassStage::Clear => PipelineKind::Clear,
        PassStage::Voxelize => PipelineKind::Voxelize,
        PassStage::GenerateMip { .. } => PipelineKind::GenerateMip,
    }
}

/// Clears every LOD of the view's storage.
pub open spec fn clear_step(v: ViewGiVolume) -> DispatchStep {
    let g = groups_per_axis(v.resolution);
    DispatchStep {
        stage: PassStage::Clear,
        volume_index: v.gpu_binding_index,
        x: g,
        y: g,
        z: (g * v.num_lods) as u32,
    }
}

/// Voxelizes the scene into the finest LOD.
pub open spec fn voxelize_step(v: ViewGiVolume) -> DispatchStep {
    let g = groups_per_axis(v.resolution);
    DispatchStep { stage: PassStage::Voxelize, volume_index: v.gpu_binding_index, x: g, y: g, z: g }
}

/// Fills LOD `level`, which holds as many voxels as every other LOD.
pub open spec fn mip_step(v: ViewGiVolume, level: int) -> DispatchStep {
    let g = groups_per_axis(v.resolution);
    DispatchStep {
        stage: PassStage::GenerateMip { level: level as u32 },
        volume_index: v.gpu_binding_index,
        x: g,
        y: g,
        z: g,
    }
}

pub open spec fn mip_count(num_lods: u8) -> nat {
    if num_lods > 1 {
        (num_lods - 1) as nat
    } else {
        0
    }
}

/// The dispatches of one view in one frame: clear, voxelize, then one LOD
/// generation per level from 1 to `num_lods - 1` in increasing order.
pub open spec fn pass_plan(v: ViewGiVolume) -> Seq<DispatchStep> {
    seq![clear_step(v), voxelize_step(v)] + Seq::new(
        mip_count(v.num_lods),
        |i: int| mip_step(v, i + 1),
    )
}

impl PassStage {
    /// Pipeline the stage runs.
    pub fn pipeline(self) -> (r: PipelineKind)
        ensures
            r == pipeline_of(self),
    {
        match self {
            PassStage::Clear => PipelineKind::Clear,
            PassStage::Voxelize => PipelineKind::Voxelize,
            PassStage::GenerateMip { .. } => PipelineKind::GenerateMip,
        }
    }

    /// Index of the stage's level uniform in `GiMeta::gi_mipmaps`.
    pub fn mip_uniform_index(self) -> (r: Option<usize>)
        ensures
            match self {
                PassStage::GenerateMip { level } => level >= 1 ==> r == Some((level - 1) as usize),
                _ => r is None,
            },
            r matches Some(k) ==> self matches PassStage::GenerateMip { level } && k + 1 == level,
    {
        match self {
            PassStage::GenerateMip { level } => if level >= 1 {
                Some((level - 1) as usize)
            } else {
                None
            },
            _ => None,
        }
    }
}

/// Workgroups per axis that cover `resolution` voxels.
pub fn groups_for(resolution: u8) -> (r: u32)
    ensures
        r == groups_per_axis(resolution),
        r <= 64,
{
    (resolution as u32 + WORKGROUP_SIZE - 1) / WORKGROUP_SIZE
}

/// LOD a stage generates; the finest LOD for the other stages.
pub open spec fn level_of(stage: PassStage) -> int {
    match stage {
        PassStage::GenerateMip { level } => level as int,
        _ => 0,
    }
}

/// Within one view's dispatches the LODs are generated in strictly
/// increasing level order, each after the voxelize dispatch, and every LOD
/// above the first after the LOD it is filled from.
pub proof fn lemma_lods_generated_in_order(v: ViewGiVolume)
    ensures
        forall|i: int, j: int|
            0 <= i < j < pass_plan(v).len() && (#[trigger] pass_plan(v)[i].stage is GenerateMip)
                && (#[trigger] pass_plan(v)[j].stage is GenerateMip) ==> level_of(pass_plan(v)[i].stage)
                < level_of(pass_plan(v)[j].stage),
        forall|j: int|
            0 <= j < pass_plan(v).len() && (#[trigger] pass_plan(v)[j].stage is GenerateMip) ==> {
                &&& level_of(pass_plan(v)[j].stage) >= 1
                &&& exists|i: int| 0 <= i < j && pass_plan(v)[i].stage == PassStage::Voxelize
                &&& level_of(pass_plan(v)[j].stage) > 1 ==> exists|i: int|
                    0 <= i < j && (pass_plan(v)[i].stage is GenerateMip) && level_of(pass_plan(v)[i].stage)
                        == level_of(pass_plan(v)[j].stage) - 1
            },
{
    let p = pass_plan(v);
    assert forall|j: int| 0 <= j < p.len() && (#[trigger] p[j].stage is GenerateMip) implies {
        &&& level_of(p[j].stage) >= 1
        &&& exists|i: int| 0 <= i < j && p[i].stage == PassStage::Voxelize
        &&& level_of(p[j].stage) > 1 ==> exists|i: int|
            0 <= i < j && (p[i].stage is GenerateMip) && level_of(p[i].stage) == level_of(p[j].stage) - 1
    } by {
        assert(j >= 2);
        assert(p[1].stage == PassStage::Voxelize);
        assert(level_of(p[j].stage) == j - 1);
        if j > 2 {
            assert(level_of(p[j - 1].stage) == j - 2);
        }
    }
}

/// Within one view's dispatches the storage is cleared first, and every
/// voxelize dispatch comes after a clear dispatch.
pub proof fn lemma_clear_precedes_voxelize(v: ViewGiVolume)
    ensures
        pass_plan(v)[0].stage == PassStage::Clear,
        forall|j: int|
            0 <= j < pass_plan(v).len() && #[trigger] pass_plan(v)[j].stage == PassStage::Voxelize
                ==> exists|i: int| 0 <= i < j && pass_plan(v)[i].stage == PassStage::Clear,
{
    let p = pass_plan(v);
    assert forall|j: int|
        0 <= j < p.len() && #[trigger] p[j].stage == PassStage::Voxelize implies exists|i: int|
            0 <= i < j && p[i].stage == PassStage::Clear by {
        assert(p[0].stage == PassStage::Clear);
        assert(j != 0);
    }
}

/// The render-graph node of the voxelization pass. It takes the view it runs
/// for through its input slot.
pub struct VoxelizePassNode {}

impl VoxelizePassNode {
    /// Name of the node's one input slot, the view.
    pub const IN_VIEW: &'static str = "view";

    pub fn new() -> (r: VoxelizePassNode) {
        VoxelizePassNode {}
    }

    /// Dispatches issued for one view in this frame, in order. A view
    /// without prepared resources gets none.
    pub fn run(&self, view: Option<&ViewGiVolume>) -> (r: Vec<DispatchStep>)
        ensures
            match view {
                None => r@.len() == 0,
                Some(v) => r@ == pass_plan(*v),
            },
    {
        let v = match view {
            None => {
                return Vec::new();
            },
            Some(v) => *v,
        };
        let g = groups_for(v.resolution);
        let idx = v.gpu_binding_index;
        proof {
            assert(g * v.num_lods <= 64 * 255) by (nonlinear_arith)
                requires
                    g <= 64,
                    v.num_lods <= 255,
            ;
        }
        let mut r: Vec<DispatchStep> = Vec::new();
        r.push(DispatchStep { stage: PassStage::Clear, volume_index: idx, x: g, y: g, z: g * (v.num_lods as u32) });
        r.push(DispatchStep { stage: PassStage::Voxelize, volume_index: idx, x: g, y: g, z: g });
        let mut level: u8 = 1;
        while level < v.num_lods
            invariant
                1 <= level,
                level <= v.num_lods || level == 1,
                g == groups_per_axis(v.resolution),
                idx == v.gpu_binding_index,
                r@ == seq![clear_step(v), voxelize_step(v)] + Seq::new(
                    (level - 1) as nat,
                    |i: int| mip_step(v, i + 1),
                ),
            decreases v.num_lods - level,
        {
            r.push(
                DispatchStep {
                    stage: PassStage::GenerateMip { level: level as u32 },
                    volume_index: idx,
                    x: g,
                    y: g,
                    z: g,
                },
            );
            level = level + 1;
            assert(r@ =~= seq![clear_step(v), voxelize_step(v)] + Seq::new(
                (level - 1) as nat,
                |i: int| mip_step(v, i + 1),
            ));
        }
        assert(r@ =~= pass_plan(v));
        r
    }
}

} // verus!
