use vstd::prelude::*;

use crate::cache::{
    count_where, first_free, first_free_from, free_with, is_free_match, lemma_count_push,
    lemma_count_update, lemma_free_entry_found, lemma_release_frees_taken, taken_with, BufferKey,
    BufferUsage, CacheEntry, CacheView, CachedBuffer, ResourceCache,
};
use crate::uniforms::{build_mip_uniforms, mip_uniforms, GpuGiVolume, GpuMipMap};
use crate::volume::{extracted_of, ExtractedGiVolume, GiVolume};
use bevy_math::Mat4;

verus! {

/// Bytes of one voxel: four 32-bit components.
pub const VOXEL_BYTES: u64 = 16;

/// Bytes of the storage of a volume: every LOD cascade holds
/// `resolution`^3 voxels.
pub open spec fn volume_buffer_size(resolution: u8, num_lods: u8) -> int {
    resolution * resolution * resolution * num_lods * VOXEL_BYTES
}

/// Descriptor of the storage buffer of a volume. It depends on the
/// resolution and the LOD count alone.
pub open spec fn volume_buffer_key_of(resolution: u8, num_lods: u8) -> BufferKey {
    BufferKey { size: volume_buffer_size(resolution, num_lods) as u64, usage: BufferUsage::Storage }
}

/// Computes the descriptor of the storage buffer of a volume.
pub fn volume_buffer_key(resolution: u8, num_lods: u8) -> (r: BufferKey)
    ensures
        r == volume_buffer_key_of(resolution, num_lods),
        r.size == volume_buffer_size(resolution, num_lods),
{
    let res = resolution as u64;
    let lods = num_lods as u64;
    proof {
        assert(res * res <= 255 * 255) by (nonlinear_arith)
            requires
                res <= 255,
        ;
        assert(res * res * res <= 255 * 255 * 255) by (nonlinear_arith)
            requires
                res <= 255,
        ;
        assert(res * res * res * lods <= 255 * 255 * 255 * 255) by (nonlinear_arith)
            requires
                res <= 255,
                lods <= 255,
        ;
    }
    let size = res * res * res * lods * VOXEL_BYTES;
    BufferKey { size, usage: BufferUsage::Storage }
}

/// GPU resources of one view for the current frame.
#[derive(Clone, Copy, Debug, PartialEq, Eq, Structural)]
pub struct ViewGiVolume {
    /// The view (render camera) the resources belong to.
    pub view: u64,
    /// Storage buffer of the voxel grid, lent out by the resource cache.
    pub volume_buffer: CachedBuffer,
    /// Index of the view's settings in `GiMeta::view_gi_volumes`.
    pub gpu_binding_index: usize,
    pub resolution: u8,
    pub num_lods: u8,
}

/// Uniform data of the current frame, uploaded by the host.
pub struct GiMeta {
    /// One volume setting per prepared view, in the order of the views.
    pub view_gi_volumes: Vec<GpuGiVolume>,
    /// One level uniform per generated LOD, in increasing level order.
    pub gi_mipmaps: Vec<GpuMipMap>,
}

impl GiMeta {
    pub fn new() -> (r: GiMeta)
        ensures
            r.view_gi_volumes@.len() == 0,
            r.gi_mipmaps@.len() == 0,
    {
        GiMeta { view_gi_volumes: Vec::new(), gi_mipmaps: Vec::new() }
    }
}

/// Why the preparation of a frame was given up.
#[derive(Clone, Copy, Debug, PartialEq, Eq, Structural)]
pub enum PrepareError {
    /// The cache could not lend out a buffer; the pass is skipped this frame.
    ResourceExhaustion,
}

/// Cache state and buffers after `n` acquisitions of `key`, stopping at the
/// first one that fails.
pub open spec fn acquire_n(c: CacheView, key: BufferKey, n: nat) -> (CacheView, Option<Seq<CachedBuffer>>)
    decreases n,
{
    if n == 0 {
        (c, Some(Seq::empty()))
    } else {
        let (c1, r) = acquire_n(c, key, (n - 1) as nat);
        match r {
            None => (c1, None),
            Some(bs) => {
                let (c2, b) = c1.acquire(key);
                match b {
                    None => (c2, None),
                    Some(b) => (c2, Some(bs.push(b))),
                }
            },
        }
    }
}

/// The cache after preparing `n` views for `volume`.
pub open spec fn prepared_cache(c: CacheView, volume: Option<ExtractedGiVolume>, n: nat) -> CacheView {
    match volume {
        None => c,
        Some(v) => acquire_n(c, volume_buffer_key_of(v.resolution, v.num_lods), n).0,
    }
}

/// The buffers lent out while preparing `n` views for `v`, if all were.
pub open spec fn prepared_buffers(c: CacheView, v: ExtractedGiVolume, n: nat) -> Option<Seq<CachedBuffer>> {
    acquire_n(c, volume_buffer_key_of(v.resolution, v.num_lods), n).1
}

/// Resources of view `k` of `views`.
pub open spec fn view_volume(views: Seq<u64>, v: ExtractedGiVolume, bufs: Seq<CachedBuffer>, k: int) -> ViewGiVolume {
    ViewGiVolume {
        view: views[k],
        volume_buffer: bufs[k],
        gpu_binding_index: k as usize,
        resolution: v.resolution,
        num_lods: v.num_lods,
    }
}

pub proof fn lemma_acquire_n_failed(c: CacheView, key: BufferKey, m: nat, n: nat)
    requires
        m <= n,
        acquire_n(c, key, m).1 is None,
    ensures
        acquire_n(c, key, n) == acquire_n(c, key, m),
    decreases n,
{
    if n > m {
        lemma_acquire_n_failed(c, key, m, (n - 1) as nat);
    }
}

/// A frame whose scene holds no volume config extracts nothing, and its
/// preparation acquires nothing from the cache, whatever views there are.
pub proof fn lemma_no_volume_no_work(c: CacheView, n: nat)
    ensures
        extracted_of(Seq::<(GiVolume, Mat4)>::empty()) is None,
        prepared_cache(c, extracted_of(Seq::<(GiVolume, Mat4)>::empty()), n) == c,
{
}

/// Volumes with the same resolution and LOD count ask the cache for the same
/// descriptor, whatever their size and transform: a volume that stays the
/// same from one frame to the next can be served from the cache.
pub proof fn lemma_same_shape_same_descriptor(a: ExtractedGiVolume, b: ExtractedGiVolume)
    requires
        a.resolution == b.resolution,
        a.num_lods == b.num_lods,
    ensures
        volume_buffer_key_of(a.resolution, a.num_lods) == volume_buffer_key_of(b.resolution, b.num_lods),
{
}

pub proof fn lemma_first_free_from(s: Seq<CacheEntry>, key: BufferKey, i: int)
    ensures
        first_free_from(s, key, i) matches Some(k) ==> i <= k < s.len() && is_free_match(s[k], key),
    decreases s.len() - i,
{
    if 0 <= i < s.len() && !is_free_match(s[i], key) {
        lemma_first_free_from(s, key, i + 1);
    }
}

/// One acquisition keeps the cache well formed and every lent-out entry as
/// it was, and lends out an id that was not lent out before.
pub proof fn lemma_acquire_fresh_id(c: CacheView, key: BufferKey)
    requires
        c.wf(),
    ensures
        c.acquire(key).0.wf(),
        c.acquire(key).0.frame == c.frame,
        c.acquire(key).0.entries.len() >= c.entries.len(),
        forall|i: int|
            0 <= i < c.entries.len() && (#[trigger] c.entries[i]).taken ==> c.acquire(key).0.entries[i]
                == c.entries[i],
        c.acquire(key).1 matches Some(b) ==> {
            &&& c.acquire(key).0.lent_out(b.id)
            &&& forall|i: int|
                0 <= i < c.entries.len() && (#[trigger] c.entries[i]).taken ==> c.entries[i].id != b.id
        },
{
    lemma_first_free_from(c.entries, key, 0);
    let (c2, r) = c.acquire(key);
    match first_free(c.entries, key) {
        Some(k) => {
            assert(c2.entries[k].taken && c2.entries[k].id == c.entries[k].id);
        },
        None => {
            if c.next_id < u64::MAX {
                let k = c.entries.len() as int;
                assert(c2.entries[k].taken && c2.entries[k].id == c.next_id);
            }
        },
    }
}

/// Preparing several views lends out a separate storage buffer to each:
/// no two views share one, and none of them is a buffer that was already
/// lent out in this frame.
pub proof fn lemma_views_get_distinct_buffers(c: CacheView, v: ExtractedGiVolume, n: nat)
    requires
        c.wf(),
    ensures
        prepared_buffers(c, v, n) matches Some(bs) ==> {
            &&& bs.len() == n
            &&& forall|i: int, j: int| 0 <= i < j < n ==> #[trigger] bs[i].id != #[trigger] bs[j].id
            &&& forall|i: int, k: int|
                0 <= i < c.entries.len() && 0 <= k < n && (#[trigger] c.entries[i]).taken
                    ==> c.entries[i].id != (#[trigger] bs[k]).id
        },
{
    lemma_acquire_n_lent(c, volume_buffer_key_of(v.resolution, v.num_lods), n);
}

proof fn lemma_acquire_n_lent(c: CacheView, key: BufferKey, n: nat)
    requires
        c.wf(),
    ensures
        acquire_n(c, key, n).0.wf(),
        acquire_n(c, key, n).0.frame == c.frame,
        acquire_n(c, key, n).0.entries.len() >= c.entries.len(),
        forall|i: int|
            0 <= i < c.entries.len() && (#[trigger] c.entries[i]).taken ==> acquire_n(c, key, n).0.entries[i]
                == c.entries[i],
        acquire_n(c, key, n).1 matches Some(bs) ==> {
            &&& bs.len() == n
            &&& forall|i: int, j: int| 0 <= i < j < n ==> #[trigger] bs[i].id != #[trigger] bs[j].id
            &&& forall|i: int, k: int|
                0 <= i < c.entries.len() && 0 <= k < n && (#[trigger] c.entries[i]).taken
                    ==> c.entries[i].id != (#[trigger] bs[k]).id
            &&& forall|k: int| 0 <= k < n ==> acquire_n(c, key, n).0.lent_out(#[trigger] bs[k].id)
        },
    decreases n,
{
    if n > 0 {
        lemma_acquire_n_lent(c, key, (n - 1) as nat);
        let (c1, r) = acquire_n(c, key, (n - 1) as nat);
        if let Some(bs) = r {
            lemma_acquire_fresh_id(c1, key);
            let (c2, b) = c1.acquire(key);
            if let Some(b) = b {
                let bs2 = bs.push(b);
                assert forall|k: int| 0 <= k < n implies c2.lent_out(#[trigger] bs2[k].id) by {
                    if k < n - 1 {
                        assert(c1.lent_out(bs[k].id));
                        let i = choose|i: int|
                            0 <= i < c1.entries.len() && (#[trigger] c1.entries[i]).taken
                                && c1.entries[i].id == bs[k].id;
                        assert(c2.entries[i] == c1.entries[i]);
                    }
                }
                assert forall|i: int, j: int| 0 <= i < j < n implies #[trigger] bs2[i].id != #[trigger] bs2[j].id by {
                    if j == n - 1 {
                        assert(c1.lent_out(bs[i].id));
                        let m = choose|m: int|
                            0 <= m < c1.entries.len() && (#[trigger] c1.entries[m]).taken
                                && c1.entries[m].id == bs[i].id;
                        assert(c1.entries[m].taken);
                    }
                }
                assert forall|i: int, k: int|
                    0 <= i < c.entries.len() && 0 <= k < n && (#[trigger] c.entries[i]).taken
                        implies c.entries[i].id != (#[trigger] bs2[k]).id by {
                    if k == n - 1 {
                        assert(c1.entries[i] == c.entries[i]);
                    }
                }
            }
        }
    }
}

/// How one acquisition changes the number of free and of lent-out entries
/// with `key`.
pub proof fn lemma_acquire_counts(c: CacheView, key: BufferKey)
    ensures
        c.acquire(key).1 is Some ==> count_where(c.acquire(key).0.entries, taken_with(key))
            == count_where(c.entries, taken_with(key)) + 1,
        count_where(c.entries, free_with(key)) > 0 ==> {
            &&& c.acquire(key).1 matches Some(b) && !b.fresh
            &&& count_where(c.acquire(key).0.entries, free_with(key)) + 1 == count_where(
                c.entries,
                free_with(key),
            )
            &&& c.acquire(key).0.entries.len() == c.entries.len()
        },
{
    lemma_first_free_from(c.entries, key, 0);
    if count_where(c.entries, free_with(key)) > 0 {
        lemma_free_entry_found(c, key);
    }
    let (c2, r) = c.acquire(key);
    match first_free(c.entries, key) {
        Some(i) => {
            let x = c2.entries[i];
            lemma_count_update(c.entries, i, x, taken_with(key));
            lemma_count_update(c.entries, i, x, free_with(key));
        },
        None => {
            if c.next_id < u64::MAX {
                lemma_count_push(c.entries, c2.entries.last(), taken_with(key));
                assert(c2.entries == c.entries.push(c2.entries.last()));
            }
        },
    }
}

proof fn lemma_acquire_n_takes(c: CacheView, key: BufferKey, n: nat)
    ensures
        acquire_n(c, key, n).1 is Some ==> count_where(acquire_n(c, key, n).0.entries, taken_with(key))
            == count_where(c.entries, taken_with(key)) + n,
    decreases n,
{
    if n > 0 {
        lemma_acquire_n_takes(c, key, (n - 1) as nat);
        let c1 = acquire_n(c, key, (n - 1) as nat).0;
        lemma_acquire_counts(c1, key);
    }
}

proof fn lemma_acquire_n_reuses(c: CacheView, key: BufferKey, m: nat)
    requires
        count_where(c.entries, free_with(key)) >= m,
    ensures
        acquire_n(c, key, m).1 matches Some(bs) && bs.len() == m && forall|k: int|
            0 <= k < m ==> !(#[trigger] bs[k]).fresh,
        count_where(acquire_n(c, key, m).0.entries, free_with(key)) + m == count_where(c.entries, free_with(key)),
        acquire_n(c, key, m).0.entries.len() == c.entries.len(),
    decreases m,
{
    if m > 0 {
        lemma_acquire_n_reuses(c, key, (m - 1) as nat);
        let c1 = acquire_n(c, key, (m - 1) as nat).0;
        lemma_acquire_counts(c1, key);
    }
}

/// A volume that stays the same from one frame to the next is served from
/// the cache in the second frame: when every view got its buffer in one
/// frame, every view gets a reused buffer in the next, and the cache does
/// not grow.
pub proof fn lemma_static_volume_hits_cache(c: CacheView, v: ExtractedGiVolume, n: nat)
    requires
        c.wf(),
        prepared_buffers(c, v, n) is Some,
    ensures
        prepared_buffers(prepared_cache(c, Some(v), n).release_unused(), v, n) matches Some(bs)
            && forall|k: int| 0 <= k < n ==> !(#[trigger] bs[k]).fresh,
        prepared_cache(prepared_cache(c, Some(v), n).release_unused(), Some(v), n).entries.len()
            == prepared_cache(c, Some(v), n).release_unused().entries.len(),
{
    let key = volume_buffer_key_of(v.resolution, v.num_lods);
    let c1 = acquire_n(c, key, n).0;
    lemma_acquire_n_lent(c, key, n);
    lemma_acquire_n_takes(c, key, n);
    lemma_release_frees_taken(c1.entries, c1.frame, c1.retention, key);
    lemma_acquire_n_reuses(c1.release_unused(), key, n);
}

/// Prepares the volume resources of every view for the current frame: one
/// storage buffer lent out by `cache` per view, and the uniform data in
/// `meta`. Without a volume nothing is acquired. When the cache cannot lend
/// out a buffer the frame's pass is given up and `meta` is left empty.
pub fn prepare_volumes(
    cache: &mut ResourceCache,
    meta: &mut GiMeta,
    volume: &Option<ExtractedGiVolume>,
    views: &Vec<u64>,
) -> (r: Result<Vec<ViewGiVolume>, PrepareError>)
    requires
        old(cache)@.wf(),
    ensures
        final(cache)@.wf(),
        final(cache)@ == prepared_cache(old(cache)@, *volume, views@.len()),
        match *volume {
            None => {
                &&& r matches Ok(out) && out@.len() == 0
                &&& final(meta).view_gi_volumes@.len() == 0
                &&& final(meta).gi_mipmaps@.len() == 0
            },
            Some(v) => match prepared_buffers(old(cache)@, v, views@.len()) {
                None => {
                    &&& r == Err::<Vec<ViewGiVolume>, PrepareError>(PrepareError::ResourceExhaustion)
                    &&& final(meta).view_gi_volumes@.len() == 0
                    &&& final(meta).gi_mipmaps@.len() == 0
                },
                Some(bufs) => {
                    &&& r matches Ok(out) && out@.len() == views@.len() && forall|k: int|
                        0 <= k < views@.len() ==> #[trigger] out@[k] == view_volume(views@, v, bufs, k)
                    &&& final(meta).view_gi_volumes@ == Seq::new(views@.len(), |k: int| GpuGiVolume::of(v))
                    &&& final(meta).gi_mipmaps@ == mip_uniforms(v.num_lods)
                },
            },
        },
{
    meta.view_gi_volumes = Vec::new();
    meta.gi_mipmaps = Vec::new();
    let v = match volume {
        None => {
            return Ok(Vec::new());
        },
        Some(v) => *v,
    };
    let key = volume_buffer_key(v.resolution, v.num_lods);
    let gpu = GpuGiVolume::from_extracted(&v);
    let n = views.len();
    let mut out: Vec<ViewGiVolume> = Vec::new();
    let ghost mut bufs: Seq<CachedBuffer> = Seq::empty();
    let mut i: usize = 0;
    while i < n
        invariant
            n == views@.len(),
            0 <= i <= n,
            key == volume_buffer_key_of(v.resolution, v.num_lods),
            gpu == GpuGiVolume::of(v),
            *volume == Some(v),
            cache@.wf(),
            acquire_n(old(cache)@, key, i as nat) == (cache@, Some(bufs)),
            bufs.len() == i,
            out@.len() == i,
            forall|k: int| 0 <= k < i ==> #[trigger] out@[k] == view_volume(views@, v, bufs, k),
            meta.view_gi_volumes@ == Seq::new(i as nat, |k: int| GpuGiVolume::of(v)),
            meta.gi_mipmaps@.len() == 0,
        decreases n - i,
    {
        match cache.acquire(key) {
            None => {
                proof {
                    assert(acquire_n(old(cache)@, key, (i + 1) as nat).1 is None);
                    lemma_acquire_n_failed(old(cache)@, key, (i + 1) as nat, n as nat);
                }
                meta.view_gi_volumes = Vec::new();
                return Err(PrepareError::ResourceExhaustion);
            },
            Some(b) => {
                out.push(
                    ViewGiVolume {
                        view: views[i],
                        volume_buffer: b,
                        gpu_binding_index: i,
                        resolution: v.resolution,
                        num_lods: v.num_lods,
                    },
                );
                meta.view_gi_volumes.push(gpu);
                proof {
                    let ghost before = bufs;
                    bufs = bufs.push(b);
                    assert forall|k: int| 0 <= k <= i implies #[trigger] out@[k] == view_volume(views@, v, bufs, k) by {
                        if k < i {
                            assert(bufs[k] == before[k]);
                        }
                    }
                    assert(meta.view_gi_volumes@ =~= Seq::new((i + 1) as nat, |k: int| GpuGiVolume::of(v)));
                }
            },
        }
        i = i + 1;
    }
    meta.gi_mipmaps = build_mip_uniforms(v.num_lods);
    Ok(out)
}

} // verus!
