use vstd::prelude::*;

verus! {

/// Kind of a buffer binding of a bind-group layout.
#[derive(Clone, Copy, Debug, PartialEq, Eq, Structural)]
pub enum BindingKind {
    Uniform,
    /// Read-write storage.
    Storage,
}

/// One entry of a bind-group layout, visible to compute shaders.
#[derive(Clone, Copy, Debug, PartialEq, Eq, Structural)]
pub struct LayoutEntry {
    pub binding: u32,
    pub kind: BindingKind,
    pub has_dynamic_offset: bool,
    /// Smallest buffer size the binding accepts; 0 sets no minimum.
    pub min_binding_size: u64,
}

/// The bind-group layouts of the pass.
#[derive(Clone, Copy, Debug, PartialEq, Eq, Structural)]
pub enum LayoutKind {
    /// Volume settings and voxel storage.
    Volume,
    /// Volume settings, voxel storage and the level uniform.
    Mipmap,
}

/// The compute pipelines of the pass.
#[derive(Clone, Copy, Debug, PartialEq, Eq, Structural)]
pub enum PipelineKind {
    /// Zero-fills the voxel storage.
    Clear,
    /// Stamps scene geometry into the voxel grid.
    Voxelize,
    /// Fills one LOD from the previous one.
    GenerateMip,
}

pub open spec fn layout_of(kind: PipelineKind) -> LayoutKind {
    match kind {
        PipelineKind::GenerateMip => LayoutKind::Mipmap,
        _ => LayoutKind::Volume,
    }
}

pub open spec fn entry_point_of(kind: PipelineKind) -> Seq<char> {
    match kind {
        PipelineKind::Clear => "clear"@,
        PipelineKind::Voxelize => "voxelize"@,
        PipelineKind::GenerateMip => "generate_mip"@,
    }
}

impl PipelineKind {
    /// Layout the pipeline is built with.
    pub fn layout(self) -> (r: LayoutKind)
        ensures
            r == layout_of(self),
    {
        match self {
            PipelineKind::GenerateMip => LayoutKind::Mipmap,
            _ => LayoutKind::Volume,
        }
    }

    /// Shader entry point of the pipeline.
    pub fn entry_point(self) -> (r: &'static str)
        ensures
            r@ == entry_point_of(self),
    {
        match self {
            PipelineKind::Clear => "clear",
            PipelineKind::Voxelize => "voxelize",
            PipelineKind::GenerateMip => "generate_mip",
        }
    }
}

/// Binding 0: the volume settings, read at a per-view dynamic offset.
pub open spec fn settings_entry(volume_uniform_size: u64) -> LayoutEntry {
    LayoutEntry {
        binding: 0,
        kind: BindingKind::Uniform,
        has_dynamic_offset: true,
        min_binding_size: volume_uniform_size,
    }
}

/// Binding 1: the voxel storage.
pub open spec fn storage_entry() -> LayoutEntry {
    LayoutEntry {
        binding: 1,
        kind: BindingKind::Storage,
        has_dynamic_offset: false,
        min_binding_size: 0,
    }
}

/// Binding 2: the level uniform, read at a per-level dynamic offset.
pub open spec fn level_entry(mip_uniform_size: u64) -> LayoutEntry {
    LayoutEntry {
        binding: 2,
        kind: BindingKind::Uniform,
        has_dynamic_offset: true,
        min_binding_size: mip_uniform_size,
    }
}

/// Layouts and pipelines of the voxelization pass, built once per device.
/// The device objects are created from this description by the host.
pub struct VoxelizePipeline {
    pub volume_layout: Vec<LayoutEntry>,
    pub mipmap_layout: Vec<LayoutEntry>,
    /// Every pipeline of the pass, in the order they are built.
    pub pipelines: Vec<PipelineKind>,
}

impl VoxelizePipeline {
    /// Describes the pass for uniforms whose std140 sizes are
    /// `volume_uniform_size` (the volume settings) and `mip_uniform_size`
    /// (the level uniform).
    pub fn new(volume_uniform_size: u64, mip_uniform_size: u64) -> (r: VoxelizePipeline)
        ensures
            r.volume_layout@ == seq![settings_entry(volume_uniform_size), storage_entry()],
            r.mipmap_layout@ == seq![
                settings_entry(volume_uniform_size),
                storage_entry(),
                level_entry(mip_uniform_size),
            ],
            r.pipelines@ == seq![PipelineKind::Clear, PipelineKind::Voxelize, PipelineKind::GenerateMip],
    {
        let settings = LayoutEntry {
            binding: 0,
            kind: BindingKind::Uniform,
            has_dynamic_offset: true,
            min_binding_size: volume_uniform_size,
        };
        let storage = LayoutEntry {
            binding: 1,
            kind: BindingKind::Storage,
            has_dynamic_offset: false,
            min_binding_size: 0,
        };
        let level = LayoutEntry {
            binding: 2,
            kind: BindingKind::Uniform,
            has_dynamic_offset: true,
            min_binding_size: mip_uniform_size,
        };
        let volume_layout = vec![settings, storage];
        let mipmap_layout = vec![settings, storage, level];
        let pipelines = vec![PipelineKind::Clear, PipelineKind::Voxelize, PipelineKind::GenerateMip];
        assert(volume_layout@ =~= seq![settings_entry(volume_uniform_size), storage_entry()]);
        assert(mipmap_layout@ =~= seq![
            settings_entry(volume_uniform_size),
            storage_entry(),
            level_entry(mip_uniform_size),
        ]);
        assert(pipelines@ =~= seq![PipelineKind::Clear, PipelineKind::Voxelize, PipelineKind::GenerateMip]);
        VoxelizePipeline { volume_layout, mipmap_layout, pipelines }
    }

    /// Entries of a layout.
    pub fn layout_entries(&self, kind: LayoutKind) -> (r: &Vec<LayoutEntry>)
        ensures
            kind == LayoutKind::Volume ==> r@ == self.volume_layout@,
            kind == LayoutKind::Mipmap ==> r@ == self.mipmap_layout@,
    {
        match kind {
            LayoutKind::Volume => &self.volume_layout,
            LayoutKind::Mipmap => &self.mipmap_layout,
        }
    }
}

} // verus!
