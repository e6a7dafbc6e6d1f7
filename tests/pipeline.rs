use bevy_math::{Mat4, Vec3};
use gi_volume::cache::{BufferKey, BufferUsage, CachedBuffer, ResourceCache};
use gi_volume::node::{groups_for, DispatchStep, PassStage, VoxelizePassNode};
use gi_volume::prepare::{prepare_volumes, volume_buffer_key, GiMeta, PrepareError, ViewGiVolume};
use gi_volume::registry::{BindingKind, LayoutKind, PipelineKind, VoxelizePipeline};
use gi_volume::uniforms::{build_mip_uniforms, GpuMipMap};
use gi_volume::volume::{clamp_num_lods, extract_volumes, ExtractedGiVolume, GiVolume, MAX_NUM_LODS};

fn config(size: f32, num_lods: u8, resolution: u8) -> GiVolume {
    GiVolume { size_bits: size.to_bits(), num_lods, resolution }
}

fn extracted(num_lods: u8, resolution: u8) -> ExtractedGiVolume {
    extract_volumes(&vec![(config(16.0, num_lods, resolution), Mat4::IDENTITY)]).unwrap()
}

fn stages(steps: &[DispatchStep]) -> Vec<PassStage> {
    steps.iter().map(|s| s.stage).collect()
}

#[test]
fn default_volume() {
    let v = GiVolume::default();
    assert_eq!(f32::from_bits(v.size_bits), 16.0);
    assert_eq!(v.num_lods, 4);
    assert_eq!(v.resolution, 64);
}

#[test]
fn lod_count_is_clamped_to_the_maximum() {
    for n in 1..=8u8 {
        assert_eq!(extracted(n, 32).num_lods, n);
    }
    assert_eq!(extracted(12, 32).num_lods, 8);
    assert_eq!(extracted(255, 32).num_lods, MAX_NUM_LODS);
    assert_eq!(clamp_num_lods(9), 8);
    assert_eq!(clamp_num_lods(0), 0);
}

#[test]
fn extraction_takes_the_first_volume() {
    let t = Mat4::from_translation(Vec3::new(1.0, 2.0, 3.0));
    let volumes = vec![(config(8.0, 2, 32), t), (config(4.0, 3, 16), Mat4::IDENTITY)];
    let e = extract_volumes(&volumes).unwrap();
    assert_eq!(f32::from_bits(e.size_bits), 8.0);
    assert_eq!(e.num_lods, 2);
    assert_eq!(e.resolution, 32);
    assert_eq!(e.transform, t);
}

#[test]
fn no_volume_means_no_work() {
    let extracted = extract_volumes(&vec![]);
    assert!(extracted.is_none());
    let mut cache = ResourceCache::new(3);
    let mut meta = GiMeta::new();
    let out = prepare_volumes(&mut cache, &mut meta, &extracted, &vec![1, 2]).unwrap();
    assert!(out.is_empty());
    assert_eq!(cache.len(), 0);
    assert!(meta.view_gi_volumes.is_empty());
    assert!(meta.gi_mipmaps.is_empty());
    let node = VoxelizePassNode::new();
    assert!(node.run(None).is_empty());
}

#[test]
fn one_view_default_volume() {
    let volume = extract_volumes(&vec![(config(16.0, 4, 64), Mat4::IDENTITY)]);
    let mut cache = ResourceCache::new(3);
    let mut meta = GiMeta::new();
    let out = prepare_volumes(&mut cache, &mut meta, &volume, &vec![7]).unwrap();
    assert_eq!(out.len(), 1);
    assert_eq!(
        out[0],
        ViewGiVolume {
            view: 7,
            volume_buffer: CachedBuffer { id: 0, fresh: true },
            gpu_binding_index: 0,
            resolution: 64,
            num_lods: 4,
        }
    );
    assert_eq!(cache.len(), 1);
    assert_eq!(meta.view_gi_volumes.len(), 1);
    assert_eq!(meta.view_gi_volumes[0].resolution, 64);
    assert_eq!(meta.view_gi_volumes[0].num_lods, 4);
    assert_eq!(f32::from_bits(meta.view_gi_volumes[0].size_bits), 16.0);
    assert_eq!(meta.gi_mipmaps, vec![GpuMipMap { level: 1 }, GpuMipMap { level: 2 }, GpuMipMap { level: 3 }]);

    let steps = VoxelizePassNode::new().run(Some(&out[0]));
    assert_eq!(
        steps,
        vec![
            DispatchStep { stage: PassStage::Clear, volume_index: 0, x: 16, y: 16, z: 64 },
            DispatchStep { stage: PassStage::Voxelize, volume_index: 0, x: 16, y: 16, z: 16 },
            DispatchStep { stage: PassStage::GenerateMip { level: 1 }, volume_index: 0, x: 16, y: 16, z: 16 },
            DispatchStep { stage: PassStage::GenerateMip { level: 2 }, volume_index: 0, x: 16, y: 16, z: 16 },
            DispatchStep { stage: PassStage::GenerateMip { level: 3 }, volume_index: 0, x: 16, y: 16, z: 16 },
        ]
    );
}

#[test]
fn single_lod_has_no_mip_dispatch() {
    let volume = Some(extracted(1, 32));
    let mut cache = ResourceCache::new(3);
    let mut meta = GiMeta::new();
    let out = prepare_volumes(&mut cache, &mut meta, &volume, &vec![1]).unwrap();
    assert!(meta.gi_mipmaps.is_empty());
    let steps = VoxelizePassNode::new().run(Some(&out[0]));
    assert_eq!(stages(&steps), vec![PassStage::Clear, PassStage::Voxelize]);
    assert!(steps.iter().all(|s| s.stage.mip_uniform_index().is_none()));
}

#[test]
fn two_views_get_their_own_buffers() {
    let volume = Some(extracted(3, 16));
    let mut cache = ResourceCache::new(3);
    let mut meta = GiMeta::new();
    let out = prepare_volumes(&mut cache, &mut meta, &volume, &vec![10, 20]).unwrap();
    assert_eq!(out.len(), 2);
    assert_eq!(out[0].view, 10);
    assert_eq!(out[1].view, 20);
    assert_ne!(out[0].volume_buffer.id, out[1].volume_buffer.id);
    assert_eq!(out[0].gpu_binding_index, 0);
    assert_eq!(out[1].gpu_binding_index, 1);
    assert_eq!(meta.view_gi_volumes.len(), 2);
    let node = VoxelizePassNode::new();
    for (k, view) in out.iter().enumerate() {
        let steps = node.run(Some(view));
        assert_eq!(
            stages(&steps),
            vec![
                PassStage::Clear,
                PassStage::Voxelize,
                PassStage::GenerateMip { level: 1 },
                PassStage::GenerateMip { level: 2 },
            ]
        );
        assert!(steps.iter().all(|s| s.volume_index == k));
    }
}

#[test]
fn static_volume_hits_the_cache_next_frame() {
    let volume = Some(extracted(4, 64));
    let views = vec![1, 2];
    let mut cache = ResourceCache::new(3);
    let mut meta = GiMeta::new();
    let first = prepare_volumes(&mut cache, &mut meta, &volume, &views).unwrap();
    assert!(first.iter().all(|v| v.volume_buffer.fresh));
    assert!(cache.release_all_unused().is_empty());
    let second = prepare_volumes(&mut cache, &mut meta, &volume, &views).unwrap();
    assert!(second.iter().all(|v| !v.volume_buffer.fresh));
    assert_eq!(first[0].volume_buffer.id, second[0].volume_buffer.id);
    assert_eq!(first[1].volume_buffer.id, second[1].volume_buffer.id);
    assert_eq!(cache.len(), 2);
}

#[test]
fn same_shape_same_descriptor() {
    let a = volume_buffer_key(64, 4);
    let b = volume_buffer_key(64, 4);
    assert_eq!(a, b);
    assert_eq!(a, BufferKey { size: 64 * 64 * 64 * 4 * 16, usage: BufferUsage::Storage });
    assert_ne!(volume_buffer_key(32, 4), a);
    assert_ne!(volume_buffer_key(64, 3), a);
    assert_eq!(volume_buffer_key(255, 255).size, 255u64 * 255 * 255 * 255 * 16);
}

#[test]
fn resolution_change_reallocates() {
    let mut cache = ResourceCache::new(3);
    let mut meta = GiMeta::new();
    let first = prepare_volumes(&mut cache, &mut meta, &Some(extracted(2, 32)), &vec![1]).unwrap();
    cache.release_all_unused();
    let second = prepare_volumes(&mut cache, &mut meta, &Some(extracted(2, 64)), &vec![1]).unwrap();
    assert!(second[0].volume_buffer.fresh);
    assert_ne!(first[0].volume_buffer.id, second[0].volume_buffer.id);
    assert_eq!(second[0].resolution, 64);
}

#[test]
fn cache_never_lends_one_buffer_twice_in_a_frame() {
    let key = BufferKey { size: 1024, usage: BufferUsage::Storage };
    let mut cache = ResourceCache::new(1);
    let a = cache.acquire(key).unwrap();
    let b = cache.acquire(key).unwrap();
    assert_eq!(a, CachedBuffer { id: 0, fresh: true });
    assert_eq!(b, CachedBuffer { id: 1, fresh: true });
    let other = cache.acquire(BufferKey { size: 1024, usage: BufferUsage::Uniform }).unwrap();
    assert_eq!(other, CachedBuffer { id: 2, fresh: true });
    assert!(cache.release_all_unused().is_empty());
    assert_eq!(cache.frame(), 1);
    assert_eq!(cache.acquire(key), Some(CachedBuffer { id: 0, fresh: false }));
    assert_eq!(cache.acquire(key), Some(CachedBuffer { id: 1, fresh: false }));
    assert_eq!(cache.acquire(key), Some(CachedBuffer { id: 3, fresh: true }));
}

#[test]
fn unused_entries_retire_after_the_window() {
    let key = BufferKey { size: 64, usage: BufferUsage::Storage };
    let mut cache = ResourceCache::new(1);
    cache.acquire(key).unwrap();
    cache.acquire(key).unwrap();
    assert!(cache.release_all_unused().is_empty());
    // frame 1: only one of the two is used
    cache.acquire(key).unwrap();
    assert!(cache.release_all_unused().is_empty());
    // frame 2: none is used; entry 1 was last used two frames ago
    assert_eq!(cache.release_all_unused(), vec![1]);
    assert_eq!(cache.len(), 1);
    // frame 3: entry 0 was last used in frame 1
    assert_eq!(cache.release_all_unused(), vec![0]);
    assert_eq!(cache.len(), 0);
    assert_eq!(cache.frame(), 4);
    assert_eq!(cache.acquire(key), Some(CachedBuffer { id: 2, fresh: true }));
}

#[test]
fn zero_retention_keeps_only_this_frames_entries() {
    let key = BufferKey { size: 8, usage: BufferUsage::Storage };
    let mut cache = ResourceCache::new(0);
    cache.acquire(key).unwrap();
    assert!(cache.release_all_unused().is_empty());
    assert_eq!(cache.release_all_unused(), vec![0]);
}

#[test]
fn registry_layouts_and_pipelines() {
    let registry = VoxelizePipeline::new(80, 16);
    assert_eq!(registry.pipelines, vec![PipelineKind::Clear, PipelineKind::Voxelize, PipelineKind::GenerateMip]);
    let volume = registry.layout_entries(LayoutKind::Volume);
    assert_eq!(volume.len(), 2);
    assert_eq!(volume[0].binding, 0);
    assert_eq!(volume[0].kind, BindingKind::Uniform);
    assert!(volume[0].has_dynamic_offset);
    assert_eq!(volume[0].min_binding_size, 80);
    assert_eq!(volume[1].binding, 1);
    assert_eq!(volume[1].kind, BindingKind::Storage);
    assert!(!volume[1].has_dynamic_offset);
    let mip = registry.layout_entries(LayoutKind::Mipmap);
    assert_eq!(mip.len(), 3);
    assert_eq!(&mip[..2], &volume[..]);
    assert_eq!(mip[2].binding, 2);
    assert_eq!(mip[2].kind, BindingKind::Uniform);
    assert_eq!(mip[2].min_binding_size, 16);
    assert_eq!(PipelineKind::Clear.entry_point(), "clear");
    assert_eq!(PipelineKind::Voxelize.entry_point(), "voxelize");
    assert_eq!(PipelineKind::GenerateMip.entry_point(), "generate_mip");
    assert_eq!(PipelineKind::Clear.layout(), LayoutKind::Volume);
    assert_eq!(PipelineKind::Voxelize.layout(), LayoutKind::Volume);
    assert_eq!(PipelineKind::GenerateMip.layout(), LayoutKind::Mipmap);
    assert_eq!(VoxelizePassNode::IN_VIEW, "view");
}

#[test]
fn stage_pipelines_and_level_uniforms() {
    assert_eq!(PassStage::Clear.pipeline(), PipelineKind::Clear);
    assert_eq!(PassStage::Voxelize.pipeline(), PipelineKind::Voxelize);
    assert_eq!(PassStage::GenerateMip { level: 2 }.pipeline(), PipelineKind::GenerateMip);
    assert_eq!(PassStage::GenerateMip { level: 3 }.mip_uniform_index(), Some(2));
    assert_eq!(PassStage::GenerateMip { level: 0 }.mip_uniform_index(), None);
    assert_eq!(PassStage::Voxelize.mip_uniform_index(), None);
    assert_eq!(build_mip_uniforms(0), vec![]);
    assert_eq!(build_mip_uniforms(2), vec![GpuMipMap { level: 1 }]);
}

#[test]
fn workgroups_cover_the_grid() {
    assert_eq!(groups_for(0), 0);
    assert_eq!(groups_for(1), 1);
    assert_eq!(groups_for(4), 1);
    assert_eq!(groups_for(5), 2);
    assert_eq!(groups_for(64), 16);
    assert_eq!(groups_for(255), 64);
}

#[test]
fn ordering_of_a_full_chain() {
    let view = ViewGiVolume {
        view: 3,
        volume_buffer: CachedBuffer { id: 9, fresh: false },
        gpu_binding_index: 5,
        resolution: 8,
        num_lods: 8,
    };
    let steps = VoxelizePassNode::new().run(Some(&view));
    assert_eq!(steps.len(), 9);
    assert_eq!(steps[0].stage, PassStage::Clear);
    assert_eq!((steps[0].x, steps[0].y, steps[0].z), (2, 2, 16));
    assert_eq!(steps[1].stage, PassStage::Voxelize);
    for (i, s) in steps.iter().enumerate().skip(2) {
        assert_eq!(s.stage, PassStage::GenerateMip { level: (i - 1) as u32 });
        assert_eq!(s.stage.mip_uniform_index(), Some(i - 2));
    }
}
