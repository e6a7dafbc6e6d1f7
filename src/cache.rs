use vstd::prelude::*;

verus! {

/// What a cached buffer is used for.
#[derive(Clone, Copy, Debug, PartialEq, Eq, Structural)]
pub enum BufferUsage {
    Storage,
    Uniform,
}

/// Structural descriptor of a buffer: two requests with equal keys may be
/// served by the same allocation in different frames.
#[derive(Clone, Copy, Debug, PartialEq, Eq, Structural)]
pub struct BufferKey {
    pub size: u64,
    pub usage: BufferUsage,
}

/// A buffer lent out by the cache for the current frame. `fresh` says that
/// the caller has to allocate the device buffer behind `id`; otherwise the
/// buffer allocated for `id` in an earlier frame is reused.
#[derive(Clone, Copy, Debug, PartialEq, Eq, Structural)]
pub struct CachedBuffer {
    pub id: u64,
    pub fresh: bool,
}

/// One allocation known to the cache.
#[derive(Clone, Copy, Debug, PartialEq, Eq, Structural)]
pub struct CacheEntry {
    pub key: BufferKey,
    pub id: u64,
    /// Lent out in the current frame.
    pub taken: bool,
    /// Last frame in which the entry was lent out.
    pub last_used: u64,
}

/// Abstract state of a `ResourceCache`.
pub struct CacheView {
    pub entries: Seq<CacheEntry>,
    pub frame: u64,
    pub next_id: u64,
    /// How many frames an entry that nobody acquires is kept.
    pub retention: u64,
}

pub open spec fn is_free_match(e: CacheEntry, key: BufferKey) -> bool {
    !e.taken && e.key == key
}

/// Index of the first entry at or after `i` that is free and has `key`.
pub open spec fn first_free_from(s: Seq<CacheEntry>, key: BufferKey, i: int) -> Option<int>
    decreases s.len() - i,
{
    if i < 0 || i >= s.len() {
        None
    } else if is_free_match(s[i], key) {
        Some(i)
    } else {
        first_free_from(s, key, i + 1)
    }
}

pub open spec fn first_free(s: Seq<CacheEntry>, key: BufferKey) -> Option<int> {
    first_free_from(s, key, 0)
}

/// The frame that follows `frame`; the counter stops at its largest value.
pub open spec fn next_frame(frame: u64) -> u64 {
    if frame < u64::MAX {
        (frame + 1) as u64
    } else {
        frame
    }
}

/// An entry survives the end of `frame` when it was used within the last
/// `retention` frames; survivors are free again.
pub open spec fn retained(frame: u64, retention: u64) -> spec_fn(CacheEntry) -> Option<CacheEntry> {
    |e: CacheEntry|
        if frame - e.last_used <= retention {
            Some(CacheEntry { taken: false, ..e })
        } else {
            None
        }
}

/// Ids of the entries that do not survive the end of `frame`.
pub open spec fn retired(frame: u64, retention: u64) -> spec_fn(CacheEntry) -> Option<u64> {
    |e: CacheEntry|
        if frame - e.last_used <= retention {
            None
        } else {
            Some(e.id)
        }
}

impl CacheView {
    pub open spec fn wf(self) -> bool {
        &&& forall|i: int, j: int|
            0 <= i < j < self.entries.len() ==> #[trigger] self.entries[i].id
                < #[trigger] self.entries[j].id
        &&& forall|i: int| 0 <= i < self.entries.len() ==> #[trigger] self.entries[i].id < self.next_id
        &&& forall|i: int|
            0 <= i < self.entries.len() ==> #[trigger] self.entries[i].last_used <= self.frame
        &&& forall|i: int|
            0 <= i < self.entries.len() && #[trigger] self.entries[i].taken
                ==> self.entries[i].last_used == self.frame
    }

    /// `id` is lent out in the current frame.
    pub open spec fn lent_out(self, id: u64) -> bool {
        exists|i: int| 0 <= i < self.entries.len() && (#[trigger] self.entries[i]).taken && self.entries[i].id == id
    }

    /// State and result of lending out a buffer with `key`: the first free
    /// entry with that key if there is one, else a new entry under the next
    /// unused id. Only when every id has been handed out does it fail.
    pub open spec fn acquire(self, key: BufferKey) -> (CacheView, Option<CachedBuffer>) {
        match first_free(self.entries, key) {
            Some(i) => (
                CacheView {
                    entries: self.entries.update(
                        i,
                        CacheEntry { taken: true, last_used: self.frame, ..self.entries[i] },
                    ),
                    ..self
                },
                Some(CachedBuffer { id: self.entries[i].id, fresh: false }),
            ),
            None => if self.next_id < u64::MAX {
                (
                    CacheView {
                        entries: self.entries.push(
                            CacheEntry { key, id: self.next_id, taken: true, last_used: self.frame },
                        ),
                        next_id: (self.next_id + 1) as u64,
                        ..self
                    },
                    Some(CachedBuffer { id: self.next_id, fresh: true }),
                )
            } else {
                (self, None)
            },
        }
    }

    /// State after the end of the current frame.
    pub open spec fn release_unused(self) -> CacheView {
        CacheView {
            entries: self.entries.filter_map(retained(self.frame, self.retention)),
            frame: next_frame(self.frame),
            ..self
        }
    }

    /// Ids whose device buffers are dropped at the end of the current frame.
    pub open spec fn retired_ids(self) -> Seq<u64> {
        self.entries.filter_map(retired(self.frame, self.retention))
    }
}

/// Pool of volume buffers keyed by their descriptor. The cache hands out ids;
/// the caller keeps the device buffers under those ids, allocates one for
/// each fresh id and drops those that `release_all_unused` retires.
pub struct ResourceCache {
    entries: Vec<CacheEntry>,
    frame: u64,
    next_id: u64,
    retention: u64,
}

impl View for ResourceCache {
    type V = CacheView;

    closed spec fn view(&self) -> CacheView {
        CacheView {
            entries: self.entries@,
            frame: self.frame,
            next_id: self.next_id,
            retention: self.retention,
        }
    }
}

impl ResourceCache {
    /// An empty cache that keeps unused entries for `retention` frames.
    pub fn new(retention: u64) -> (r: ResourceCache)
        ensures
            r@ == (CacheView { entries: Seq::empty(), frame: 0, next_id: 0, retention }),
            r@.wf(),
    {
        ResourceCache { entries: Vec::new(), frame: 0, next_id: 0, retention }
    }

    /// Number of allocations the cache knows.
    pub fn len(&self) -> (r: usize)
        ensures
            r == self@.entries.len(),
    {
        self.entries.len()
    }

    /// The current frame.
    pub fn frame(&self) -> (r: u64)
        ensures
            r == self@.frame,
    {
        self.frame
    }

    /// Lends out a buffer with `key` for the current frame. A buffer already
    /// lent out in this frame is never handed out again before the frame ends.
    pub fn acquire(&mut self, key: BufferKey) -> (r: Option<CachedBuffer>)
        requires
            old(self)@.wf(),
        ensures
            (final(self)@, r) == old(self)@.acquire(key),
            final(self)@.wf(),
    {
        let n = self.entries.len();
        let mut i: usize = 0;
        while i < n
            invariant
                self@ == old(self)@,
                self@.wf(),
                n == self.entries@.len(),
                0 <= i <= n,
                first_free(self.entries@, key) == first_free_from(self.entries@, key, i as int),
            decreases n - i,
        {
            let e = self.entries[i];
            if !e.taken && e.key == key {
                let frame = self.frame;
                self.entries.set(i, CacheEntry { taken: true, last_used: frame, ..e });
                return Some(CachedBuffer { id: e.id, fresh: false });
            }
            i = i + 1;
        }
        if self.next_id == u64::MAX {
            return None;
        }
        let id = self.next_id;
        self.entries.push(CacheEntry { key, id, taken: true, last_used: self.frame });
        self.next_id = id + 1;
        Some(CachedBuffer { id, fresh: true })
    }

    /// Ends the current frame: every entry is free again, and those not used
    /// within the retention window are dropped. Returns the dropped ids in
    /// the order of the entries.
    pub fn release_all_unused(&mut self) -> (r: Vec<u64>)
        requires
            old(self)@.wf(),
        ensures
            final(self)@ == old(self)@.release_unused(),
            r@ == old(self)@.retired_ids(),
            final(self)@.wf(),
    {
        let ghost s = self.entries@;
        let ghost keep = retained(self.frame, self.retention);
        let ghost drop = retired(self.frame, self.retention);
        let frame = self.frame;
        let retention = self.retention;
        let n = self.entries.len();
        let mut kept: Vec<CacheEntry> = Vec::new();
        let mut gone: Vec<u64> = Vec::new();
        let mut i: usize = 0;
        while i < n
            invariant
                self@ == old(self)@,
                self@.wf(),
                s == self.entries@,
                keep == retained(frame, retention),
                drop == retired(frame, retention),
                frame == self.frame,
                retention == self.retention,
                n == s.len(),
                0 <= i <= n,
                kept@ == s.take(i as int).filter_map(keep),
                gone@ == s.take(i as int).filter_map(drop),
                forall|a: int, b: int|
                    0 <= a < b < kept@.len() ==> #[trigger] kept@[a].id < #[trigger] kept@[b].id,
                forall|a: int, j: int|
                    0 <= a < kept@.len() && i <= j < n ==> #[trigger] kept@[a].id < #[trigger] s[j].id,
                forall|a: int| 0 <= a < kept@.len() ==> #[trigger] kept@[a].id < self.next_id,
                forall|a: int| 0 <= a < kept@.len() ==> #[trigger] kept@[a].last_used <= frame,
                forall|a: int| 0 <= a < kept@.len() ==> !(#[trigger] kept@[a].taken),
            decreases n - i,
        {
            proof {
                s.lemma_filter_map_take_succ(keep, i as int);
                s.lemma_filter_map_take_succ(drop, i as int);
            }
            let e = self.entries[i];
            if frame - e.last_used <= retention {
                kept.push(CacheEntry { taken: false, ..e });
            } else {
                gone.push(e.id);
            }
            i = i + 1;
        }
        proof {
            assert(s.take(n as int) == s);
        }
        self.entries = kept;
        if self.frame < u64::MAX {
            self.frame = self.frame + 1;
        }
        gone
    }
}

} // verus!

verus! {

/// Number of entries of `s` that satisfy `p`.
pub open spec fn count_where(s: Seq<CacheEntry>, p: spec_fn(CacheEntry) -> bool) -> nat
    decreases s.len(),
{
    if s.len() == 0 {
        0
    } else {
        count_where(s.drop_last(), p) + if p(s.last()) {
            1nat
        } else {
            0nat
        }
    }
}

/// Entries with `key` that can be lent out.
pub open spec fn free_with(key: BufferKey) -> spec_fn(CacheEntry) -> bool {
    |e: CacheEntry| is_free_match(e, key)
}

/// Entries with `key` that are lent out.
pub open spec fn taken_with(key: BufferKey) -> spec_fn(CacheEntry) -> bool {
    |e: CacheEntry| e.taken && e.key == key
}

pub proof fn lemma_count_push(s: Seq<CacheEntry>, x: CacheEntry, p: spec_fn(CacheEntry) -> bool)
    ensures
        count_where(s.push(x), p) == count_where(s, p) + if p(x) {
            1nat
        } else {
            0nat
        },
{
    assert(s.push(x).drop_last() =~= s);
}

pub proof fn lemma_count_update(s: Seq<CacheEntry>, i: int, x: CacheEntry, p: spec_fn(CacheEntry) -> bool)
    requires
        0 <= i < s.len(),
    ensures
        count_where(s.update(i, x), p) + (if p(s[i]) {
            1nat
        } else {
            0nat
        }) == count_where(s, p) + (if p(x) {
            1nat
        } else {
            0nat
        }),
    decreases s.len(),
{
    let t = s.update(i, x);
    if i == s.len() - 1 {
        assert(t.drop_last() =~= s.drop_last());
    } else {
        assert(t.drop_last() =~= s.drop_last().update(i, x));
        lemma_count_update(s.drop_last(), i, x, p);
    }
}

pub proof fn lemma_first_free_from_none(s: Seq<CacheEntry>, key: BufferKey, i: int)
    requires
        0 <= i,
        first_free_from(s, key, i) is None,
    ensures
        forall|j: int| i <= j < s.len() ==> !is_free_match(#[trigger] s[j], key),
    decreases s.len() - i,
{
    if i < s.len() {
        lemma_first_free_from_none(s, key, i + 1);
    }
}

pub proof fn lemma_count_none(s: Seq<CacheEntry>, p: spec_fn(CacheEntry) -> bool)
    requires
        forall|j: int| 0 <= j < s.len() ==> !p(#[trigger] s[j]),
    ensures
        count_where(s, p) == 0,
    decreases s.len(),
{
    if s.len() > 0 {
        let d = s.drop_last();
        assert forall|j: int| 0 <= j < d.len() implies !p(#[trigger] d[j]) by {
            assert(d[j] == s[j]);
        }
        lemma_count_none(d, p);
    }
}

/// A cache with a free entry for `key` lends one of them out.
pub proof fn lemma_free_entry_found(c: CacheView, key: BufferKey)
    requires
        count_where(c.entries, free_with(key)) > 0,
    ensures
        first_free(c.entries, key) is Some,
{
    if first_free(c.entries, key) is None {
        lemma_first_free_from_none(c.entries, key, 0);
        assert forall|j: int| 0 <= j < c.entries.len() implies !free_with(key)(#[trigger] c.entries[j]) by {}
        lemma_count_none(c.entries, free_with(key));
    }
}

/// Every entry lent out in the current frame is free after the frame ends.
pub proof fn lemma_release_frees_taken(s: Seq<CacheEntry>, frame: u64, retention: u64, key: BufferKey)
    requires
        forall|i: int| 0 <= i < s.len() && (#[trigger] s[i]).taken ==> s[i].last_used == frame,
        forall|i: int| 0 <= i < s.len() ==> (#[trigger] s[i]).last_used <= frame,
    ensures
        count_where(s.filter_map(retained(frame, retention)), free_with(key)) >= count_where(s, taken_with(key)),
    decreases s.len(),
{
    if s.len() > 0 {
        let d = s.drop_last();
        assert forall|i: int| 0 <= i < d.len() && (#[trigger] d[i]).taken implies d[i].last_used == frame by {
            assert(d[i] == s[i]);
        }
        assert forall|i: int| 0 <= i < d.len() implies (#[trigger] d[i]).last_used <= frame by {
            assert(d[i] == s[i]);
        }
        lemma_release_frees_taken(d, frame, retention, key);
        let f = retained(frame, retention);
        let x = s.last();
        assert(s.filter_map(f) == match f(x) {
            Some(y) => d.filter_map(f) + seq![y],
            None => d.filter_map(f),
        });
        if let Some(y) = f(x) {
            assert(d.filter_map(f) + seq![y] =~= d.filter_map(f).push(y));
            lemma_count_push(d.filter_map(f), y, free_with(key));
        }
    }
}

} // verus!
