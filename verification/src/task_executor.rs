//! Executing sub-tasks: a bounded, size-bucketed memory pool, a
//! least-loaded unit balancer, and a retry/timeout policy around an
//! opaque external compute call.

use vstd::prelude::*;
use crate::bytes::copy_bytes;
use crate::error::Error;
use crate::task::{MoeTask, TaskStatus};

verus! {

/// One device buffer handed out by the pool, holding exactly `size`
/// bytes of working memory.
pub struct Buffer {
    pub size: usize,
    pub data: Vec<u8>,
}

impl Buffer {
    /// A buffer's backing memory matches its stated size.
    pub open spec fn wf(&self) -> bool {
        self.data@.len() == self.size
    }
}

/// One free-list bucket: the returned buffers of one exact size, used as
/// a stack (last in, first out, for locality).
pub struct SizeBucket {
    pub size: usize,
    pub buffers: Vec<Buffer>,
}

/// The index of the bucket for `size` in `buckets`, or -1 if none.
pub open spec fn bucket_index(buckets: Seq<SizeBucket>, size: int) -> int
    decreases buckets.len(),
{
    if buckets.len() == 0 {
        -1
    } else if buckets[0].size == size {
        0
    } else {
        let rest = bucket_index(buckets.drop_first(), size);
        if rest == -1 {
            -1
        } else {
            rest + 1
        }
    }
}

/// A found bucket index lies in range and matches the size; -1 means no
/// bucket of that size exists.
pub proof fn lemma_bucket_index_props(buckets: Seq<SizeBucket>, size: int)
    ensures
        bucket_index(buckets, size) >= 0 ==> {
            &&& bucket_index(buckets, size) < buckets.len()
            &&& buckets[bucket_index(buckets, size)].size == size
        },
        bucket_index(buckets, size) == -1 ==> forall|j: int|
            0 <= j < buckets.len() ==> (#[trigger] buckets[j]).size != size,
        bucket_index(buckets, size) >= -1,
    decreases buckets.len(),
{
    if buckets.len() > 0 && buckets[0].size != size {
        let rest = buckets.drop_first();
        lemma_bucket_index_props(rest, size);
        let ri = bucket_index(rest, size);
        if ri >= 0 {
            assert(rest[ri] == buckets[ri + 1]);
        } else {
            assert forall|j: int| 0 <= j < buckets.len() implies (#[trigger] buckets[j]).size
                != size by {
                if j > 0 {
                    assert(rest[j - 1] == buckets[j]);
                }
            }
        }
    }
}

/// Two bucket sequences with the same sizes in the same order have the
/// same bucket index for every size.
pub proof fn lemma_bucket_index_same_sizes(s1: Seq<SizeBucket>, s2: Seq<SizeBucket>, size: int)
    requires
        s1.len() == s2.len(),
        forall|j: int| 0 <= j < s1.len() ==> (#[trigger] s1[j]).size == s2[j].size,
    ensures
        bucket_index(s1, size) == bucket_index(s2, size),
    decreases s1.len(),
{
    if s1.len() > 0 {
        assert(s1[0].size == s2[0].size);
        assert forall|j: int| 0 <= j < s1.drop_first().len() implies (#[trigger] s1.drop_first()[
            j
        ]).size == s2.drop_first()[j].size by {
            assert(s1.drop_first()[j] == s1[j + 1]);
            assert(s2.drop_first()[j] == s2[j + 1]);
        }
        lemma_bucket_index_same_sizes(s1.drop_first(), s2.drop_first(), size);
    }
}

/// When no bucket of `size` exists, appending one puts it at the end,
/// and that is where `bucket_index` finds it.
pub proof fn lemma_bucket_index_append(buckets: Seq<SizeBucket>, b: SizeBucket, size: int)
    requires
        bucket_index(buckets, size) == -1,
        b.size == size,
    ensures
        bucket_index(buckets.push(b), size) == buckets.len(),
    decreases buckets.len(),
{
    if buckets.len() == 0 {
        assert(buckets.push(b)[0] == b);
    } else {
        assert(buckets[0].size != size);
        lemma_bucket_index_props(buckets.drop_first(), size);
        assert(bucket_index(buckets.drop_first(), size) == -1);
        assert(buckets.push(b)[0] == buckets[0]);
        assert(buckets.push(b).drop_first() =~= buckets.drop_first().push(b));
        lemma_bucket_index_append(buckets.drop_first(), b, size);
    }
}

/// The bounded, size-bucketed pool of device buffers.
///
/// `total_allocated` counts every byte ever allocated and still owned by
/// the pool's clients or free lists; it never exceeds `capacity`.
/// Returned buffers are retained on a per-size free list, not freed,
/// until teardown.
pub struct MemoryPool {
    pub free_buffers: Vec<SizeBucket>,
    pub total_allocated: usize,
    pub capacity: usize,
}

/// Whether the pool holds a free buffer of exactly `size` bytes.
pub open spec fn pool_has_free(p: MemoryPool, size: int) -> bool {
    let bi = bucket_index(p.free_buffers@, size);
    bi >= 0 && p.free_buffers@[bi].buffers@.len() > 0
}

/// What `acquire` does: pop a free buffer of the exact size if one
/// exists (no change to `total_allocated`); otherwise allocate a fresh
/// zeroed buffer if it fits the budget, else fail with
/// `ResourceExhausted` and change nothing.
pub open spec fn acquire_post(
    p: MemoryPool,
    size: int,
    q: MemoryPool,
    r: Result<Buffer, Error>,
) -> bool {
    let bi = bucket_index(p.free_buffers@, size);
    &&& q.capacity == p.capacity
    &&& (pool_has_free(p, size) ==> {
        &&& r matches Ok(b) && b == p.free_buffers@[bi].buffers@.last()
        &&& q.total_allocated == p.total_allocated
        &&& q.free_buffers@.len() == p.free_buffers@.len()
        &&& (forall|j: int|
            0 <= j < q.free_buffers@.len() && j != bi ==> #[trigger] q.free_buffers@[j]
                == p.free_buffers@[j])
        &&& q.free_buffers@[bi].size == size
        &&& q.free_buffers@[bi].buffers@ == p.free_buffers@[bi].buffers@.drop_last()
    })
    &&& (!pool_has_free(p, size) && p.total_allocated + size > p.capacity ==> {
        &&& r matches Err(e) && e is ResourceExhausted
        &&& q == p
    })
    &&& (!pool_has_free(p, size) && p.total_allocated + size <= p.capacity ==> {
        &&& r matches Ok(b) && b.size == size && b.data@ == Seq::new(size as nat, |i: int| 0u8)
        &&& q.total_allocated == p.total_allocated + size
        &&& q.free_buffers@ == p.free_buffers@
    })
}

/// What `release` does: push the buffer onto its size's free list,
/// creating the bucket at the end if the size is new; `total_allocated`
/// is unchanged (buffers are retained, not freed).
pub open spec fn release_post(p: MemoryPool, b: Buffer, q: MemoryPool) -> bool {
    let bi = bucket_index(p.free_buffers@, b.size as int);
    &&& q.total_allocated == p.total_allocated
    &&& q.capacity == p.capacity
    &&& (bi >= 0 ==> {
        &&& q.free_buffers@.len() == p.free_buffers@.len()
        &&& (forall|j: int|
            0 <= j < q.free_buffers@.len() && j != bi ==> #[trigger] q.free_buffers@[j]
                == p.free_buffers@[j])
        &&& q.free_buffers@[bi].size == b.size
        &&& q.free_buffers@[bi].buffers@ == p.free_buffers@[bi].buffers@.push(b)
    })
    &&& (bi == -1 ==> {
        &&& q.free_buffers@.len() == p.free_buffers@.len() + 1
        &&& (forall|j: int|
            0 <= j < p.free_buffers@.len() ==> #[trigger] q.free_buffers@[j]
                == p.free_buffers@[j])
        &&& q.free_buffers@.last().size == b.size
        &&& q.free_buffers@.last().buffers@ == seq![b]
    })
}

impl MemoryPool {
    /// The pool's invariant: the budget is respected, bucket sizes are
    /// unique, and every free buffer sits in the bucket of its size.
    pub open spec fn wf(&self) -> bool {
        &&& self.total_allocated <= self.capacity
        &&& (forall|i: int, j: int|
            0 <= i < j < self.free_buffers@.len() ==> (#[trigger] self.free_buffers@[i]).size != (
            #[trigger] self.free_buffers@[j]).size)
        &&& (forall|i: int, k: int|
            0 <= i < self.free_buffers@.len() && 0 <= k
                < (#[trigger] self.free_buffers@[i]).buffers@.len() ==> {
                &&& (#[trigger] self.free_buffers@[i].buffers@[k]).size
                    == self.free_buffers@[i].size
                &&& self.free_buffers@[i].buffers@[k].wf()
            })
    }

    /// An empty pool with the given byte budget.
    pub fn new(capacity: usize) -> (p: Self)
        ensures
            p.wf(),
            p.capacity == capacity,
            p.total_allocated == 0,
            p.free_buffers@.len() == 0,
    {
        MemoryPool { free_buffers: Vec::new(), total_allocated: 0, capacity }
    }

    /// The index of the bucket for `size`, if one exists.
    fn find_bucket(&self, size: usize) -> (r: Option<usize>)
        ensures
            r matches Some(i) ==> i == bucket_index(self.free_buffers@, size as int) && i
                < self.free_buffers@.len(),
            r is None ==> bucket_index(self.free_buffers@, size as int) == -1,
    {
        let n = self.free_buffers.len();
        proof {
            assert(self.free_buffers@.subrange(0, n as int) =~= self.free_buffers@);
        }
        for i in 0..n
            invariant
                n == self.free_buffers@.len(),
                forall|j: int| 0 <= j < i ==> (#[trigger] self.free_buffers@[j]).size != size,
                bucket_index(self.free_buffers@.subrange(i as int, n as int), size as int) >= 0
                    ==> bucket_index(self.free_buffers@, size as int) == bucket_index(
                    self.free_buffers@.subrange(i as int, n as int),
                    size as int,
                ) + i,
                bucket_index(self.free_buffers@.subrange(i as int, n as int), size as int) == -1
                    ==> bucket_index(self.free_buffers@, size as int) == -1,
        {
            proof {
                assert(self.free_buffers@.subrange(i as int, n as int)[0] == self.free_buffers@[
                    i as int
                ]);
                assert(self.free_buffers@.subrange(i as int, n as int).drop_first()
                    =~= self.free_buffers@.subrange(i + 1, n as int));
            }
            if self.free_buffers[i].size == size {
                return Some(i);
            }
        }
        proof {
            assert(self.free_buffers@.subrange(n as int, n as int).len() == 0);
        }
        None
    }

    /// Acquires a buffer of exactly `size` bytes: a free one is reused
    /// without new allocation; otherwise a fresh zeroed one is allocated
    /// against the budget, and `ResourceExhausted` is returned exactly
    /// when that would exceed the capacity (see `acquire_post`).
    pub fn acquire(&mut self, size: usize) -> (r: Result<Buffer, Error>)
        requires
            old(self).wf(),
            size + old(self).total_allocated <= usize::MAX,
        ensures
            final(self).wf(),
            acquire_post(*old(self), size as int, *final(self), r),
            r matches Ok(b) ==> b.wf() && b.size == size,
            final(self).total_allocated <= final(self).capacity,
    {
        proof {
            lemma_bucket_index_props(self.free_buffers@, size as int);
        }
        if let Some(bi) = self.find_bucket(size) {
            if self.free_buffers[bi].buffers.len() > 0 {
                let bucket = &mut self.free_buffers[bi];
                let b = match bucket.buffers.pop() {
                    Some(b) => b,
                    None => {
                        proof {
                            assert(false);
                        }
                        return Err(
                            Error::ResourceExhausted("memory pool inconsistent".to_string()),
                        );
                    },
                };
                return Ok(b);
            }
        }
        if self.total_allocated + size > self.capacity {
            return Err(
                Error::ResourceExhausted(
                    "memory budget exceeded; retry after backoff".to_string(),
                ),
            );
        }
        let data: Vec<u8> = alloc_zeroed(size);
        self.total_allocated = self.total_allocated + size;
        Ok(Buffer { size, data })
    }

    /// Returns a buffer to the free list of its size; the bucket is
    /// created if the size is new. Buffers are retained, not freed, so
    /// `total_allocated` is unchanged (see `release_post`).
    pub fn release(&mut self, buffer: Buffer)
        requires
            old(self).wf(),
            buffer.wf(),
        ensures
            final(self).wf(),
            release_post(*old(self), buffer, *final(self)),
            pool_has_free(*final(self), buffer.size as int),
    {
        proof {
            lemma_bucket_index_props(self.free_buffers@, buffer.size as int);
        }
        let ghost old_buckets = self.free_buffers@;
        match self.find_bucket(buffer.size) {
            Some(bi) => {
                let bucket = &mut self.free_buffers[bi];
                bucket.buffers.push(buffer);
                proof {
                    lemma_bucket_index_same_sizes(
                        old_buckets,
                        self.free_buffers@,
                        buffer.size as int,
                    );
                }
            },
            None => {
                let mut buffers: Vec<Buffer> = Vec::new();
                let size = buffer.size;
                buffers.push(buffer);
                self.free_buffers.push(SizeBucket { size, buffers });
                proof {
                    lemma_bucket_index_append(
                        old_buckets,
                        self.free_buffers@.last(),
                        size as int,
                    );
                    assert(self.free_buffers@.last().buffers@ =~= seq![buffer]);
                }
            },
        }
    }

    /// Teardown: clears all free lists and resets the allocation count;
    /// buffers still outstanding are the callers' responsibility.
    pub fn teardown(&mut self)
        ensures
            final(self).wf(),
            final(self).free_buffers@.len() == 0,
            final(self).total_allocated == 0,
            final(self).capacity == old(self).capacity,
    {
        self.free_buffers.clear();
        self.total_allocated = 0;
    }
}

/// A zero-filled vector of the given length.
fn alloc_zeroed(size: usize) -> (r: Vec<u8>)
    ensures
        r@ == Seq::new(size as nat, |i: int| 0u8),
{
    let mut data: Vec<u8> = Vec::new();
    for i in 0..size
        invariant
            data@ =~= Seq::new(i as nat, |j: int| 0u8),
    {
        data.push(0u8);
        proof {
            assert(data@ =~= Seq::new((i + 1) as nat, |j: int| 0u8));
        }
    }
    data
}

/// Releasing a buffer and then acquiring the same size again reuses that
/// very buffer: the second acquisition succeeds, hands back the buffer
/// just released, and allocates nothing new.
pub proof fn lemma_pool_reuse(
    before: MemoryPool,
    b: Buffer,
    released: MemoryPool,
    after: MemoryPool,
    r: Result<Buffer, Error>,
)
    requires
        release_post(before, b, released),
        acquire_post(released, b.size as int, after, r),
    ensures
        r matches Ok(b2) && b2 == b,
        after.total_allocated == before.total_allocated,
{
    lemma_bucket_index_props(before.free_buffers@, b.size as int);
    let bi1 = bucket_index(before.free_buffers@, b.size as int);
    if bi1 >= 0 {
        assert forall|j: int| 0 <= j < before.free_buffers@.len() implies (
        #[trigger] before.free_buffers@[j]).size == released.free_buffers@[j].size by {
            if j != bi1 {
                assert(released.free_buffers@[j] == before.free_buffers@[j]);
            }
        }
        lemma_bucket_index_same_sizes(before.free_buffers@, released.free_buffers@, b.size as int);
        let bi2 = bucket_index(released.free_buffers@, b.size as int);
        assert(released.free_buffers@[bi2].buffers@.last() == b);
    } else {
        assert(released.free_buffers@ =~= before.free_buffers@.push(released.free_buffers@.last()));
        lemma_bucket_index_append(before.free_buffers@, released.free_buffers@.last(), b.size as int);
        let bi2 = bucket_index(released.free_buffers@, b.size as int);
        assert(bi2 == before.free_buffers@.len());
        assert(released.free_buffers@[bi2].buffers@.last() == b);
    }
    assert(pool_has_free(released, b.size as int));
}

/// The load of `unit` in a load table: the value of its first entry, or
/// 0 for a unit not yet tracked.
pub open spec fn load_of(loads: Seq<(usize, u64)>, unit: int) -> int
    decreases loads.len(),
{
    if loads.len() == 0 {
        0
    } else if loads[0].0 == unit {
        loads[0].1 as int
    } else {
        load_of(loads.drop_first(), unit)
    }
}

/// Updating the first entry of `unit` changes only that unit's load.
proof fn lemma_load_of_update(loads: Seq<(usize, u64)>, i: int, unit: usize, nl: u64, v: int)
    requires
        0 <= i < loads.len(),
        loads[i].0 == unit,
        forall|j: int| 0 <= j < i ==> (#[trigger] loads[j]).0 != unit,
    ensures
        load_of(loads.update(i, (unit, nl)), unit as int) == nl,
        v != unit ==> load_of(loads.update(i, (unit, nl)), v) == load_of(loads, v),
    decreases loads.len(),
{
    if i == 0 {
        assert(loads.update(0, (unit, nl))[0] == (unit, nl));
        if v != unit {
            assert(loads.update(0, (unit, nl)).drop_first() =~= loads.drop_first());
        }
    } else {
        assert(loads.update(i, (unit, nl))[0] == loads[0]);
        assert(loads.update(i, (unit, nl)).drop_first() =~= loads.drop_first().update(
            i - 1,
            (unit, nl),
        ));
        assert forall|j: int| 0 <= j < i - 1 implies (#[trigger] loads.drop_first()[j]).0
            != unit by {
            assert(loads.drop_first()[j] == loads[j + 1]);
        }
        assert(loads.drop_first()[i - 1] == loads[i]);
        lemma_load_of_update(loads.drop_first(), i - 1, unit, nl, v);
    }
}

/// Appending an entry for an untracked unit changes only that unit's
/// load.
proof fn lemma_load_of_push(loads: Seq<(usize, u64)>, unit: usize, nl: u64, v: int)
    requires
        forall|j: int| 0 <= j < loads.len() ==> (#[trigger] loads[j]).0 != unit,
    ensures
        load_of(loads.push((unit, nl)), unit as int) == nl,
        v != unit ==> load_of(loads.push((unit, nl)), v) == load_of(loads, v),
    decreases loads.len(),
{
    if loads.len() == 0 {
        assert(loads.push((unit, nl))[0] == (unit, nl));
        assert(loads.push((unit, nl)).drop_first() =~= loads);
    } else {
        assert(loads.push((unit, nl))[0] == loads[0]);
        assert(loads.push((unit, nl)).drop_first() =~= loads.drop_first().push((unit, nl)));
        assert forall|j: int| 0 <= j < loads.drop_first().len() implies (
        #[trigger] loads.drop_first()[j]).0 != unit by {
            assert(loads.drop_first()[j] == loads[j + 1]);
        }
        lemma_load_of_push(loads.drop_first(), unit, nl, v);
    }
}

/// The index, among the first `n` candidates, of the one with the lowest
/// load; ties go to the earliest occurrence.
pub open spec fn best_upto(loads: Seq<(usize, u64)>, cands: Seq<usize>, n: int) -> int
    decreases n,
{
    if n <= 1 {
        0
    } else {
        let b = best_upto(loads, cands, n - 1);
        if load_of(loads, cands[n - 1] as int) < load_of(loads, cands[b] as int) {
            n - 1
        } else {
            b
        }
    }
}

/// The best index lies within the first `n` candidates.
proof fn lemma_best_upto_in_range(loads: Seq<(usize, u64)>, cands: Seq<usize>, n: int)
    requires
        n >= 1,
    ensures
        0 <= best_upto(loads, cands, n) < n,
    decreases n,
{
    if n > 1 {
        lemma_best_upto_in_range(loads, cands, n - 1);
    }
}

/// What `select_gpu` chooses is a true minimum: no candidate has a
/// lower load than the chosen one, and every candidate before it has a
/// strictly higher load, so ties go to the first occurrence.
pub proof fn lemma_best_upto_is_min(loads: Seq<(usize, u64)>, cands: Seq<usize>, n: int)
    requires
        1 <= n <= cands.len(),
    ensures
        0 <= best_upto(loads, cands, n) < n,
        forall|i: int|
            0 <= i < n ==> load_of(loads, cands[best_upto(loads, cands, n)] as int) <= load_of(
                loads,
                (#[trigger] cands[i]) as int,
            ),
        forall|i: int|
            0 <= i < best_upto(loads, cands, n) ==> load_of(loads, (#[trigger] cands[i]) as int)
                > load_of(loads, cands[best_upto(loads, cands, n)] as int),
    decreases n,
{
    if n > 1 {
        lemma_best_upto_is_min(loads, cands, n - 1);
    }
}

/// The unit assigned to a task id, by the first matching entry.
pub open spec fn assigned_unit(dist: Seq<(String, usize)>, id: Seq<char>) -> Option<usize>
    decreases dist.len(),
{
    if dist.len() == 0 {
        None
    } else if dist[0].0@ == id {
        Some(dist[0].1)
    } else {
        assigned_unit(dist.drop_first(), id)
    }
}

/// Updating the first entry of a task id changes only that id's
/// assignment.
proof fn lemma_assigned_update(
    dist: Seq<(String, usize)>,
    i: int,
    entry: (String, usize),
    other: Seq<char>,
)
    requires
        0 <= i < dist.len(),
        dist[i].0@ == entry.0@,
        forall|j: int| 0 <= j < i ==> (#[trigger] dist[j]).0@ != entry.0@,
    ensures
        assigned_unit(dist.update(i, entry), entry.0@) == Some(entry.1),
        other != entry.0@ ==> assigned_unit(dist.update(i, entry), other) == assigned_unit(
            dist,
            other,
        ),
    decreases dist.len(),
{
    if i == 0 {
        assert(dist.update(0, entry)[0] == entry);
        if other != entry.0@ {
            assert(dist.update(0, entry).drop_first() =~= dist.drop_first());
        }
    } else {
        assert(dist.update(i, entry)[0] == dist[0]);
        assert(dist.update(i, entry).drop_first() =~= dist.drop_first().update(i - 1, entry));
        assert forall|j: int| 0 <= j < i - 1 implies (#[trigger] dist.drop_first()[j]).0@
            != entry.0@ by {
            assert(dist.drop_first()[j] == dist[j + 1]);
        }
        assert(dist.drop_first()[i - 1] == dist[i]);
        lemma_assigned_update(dist.drop_first(), i - 1, entry, other);
    }
}

/// Appending an entry for an unassigned task id changes only that id's
/// assignment.
proof fn lemma_assigned_push(dist: Seq<(String, usize)>, entry: (String, usize), other: Seq<char>)
    requires
        forall|j: int| 0 <= j < dist.len() ==> (#[trigger] dist[j]).0@ != entry.0@,
    ensures
        assigned_unit(dist.push(entry), entry.0@) == Some(entry.1),
        other != entry.0@ ==> assigned_unit(dist.push(entry), other) == assigned_unit(
            dist,
            other,
        ),
    decreases dist.len(),
{
    if dist.len() == 0 {
        assert(dist.push(entry)[0] == entry);
        assert(dist.push(entry).drop_first() =~= dist);
    } else {
        assert(dist.push(entry)[0] == dist[0]);
        assert(dist.push(entry).drop_first() =~= dist.drop_first().push(entry));
        assert forall|j: int| 0 <= j < dist.drop_first().len() implies (
        #[trigger] dist.drop_first()[j]).0@ != entry.0@ by {
            assert(dist.drop_first()[j] == dist[j + 1]);
        }
        lemma_assigned_push(dist.drop_first(), entry, other);
    }
}

/// Tracks per-unit load and picks the least-loaded unit for each
/// sub-task. Loads move in whole steps of one per assignment and
/// release, clamped at a floor of zero, so they are carried as counts.
pub struct LoadBalancer {
    /// Load step count per compute unit.
    pub gpu_loads: Vec<(usize, u64)>,
    /// Which unit each task was assigned to (bookkeeping only).
    pub task_distribution: Vec<(String, usize)>,
}

impl LoadBalancer {
    /// The invariant: one load entry per unit, one assignment per task.
    pub open spec fn wf(&self) -> bool {
        &&& (forall|i: int, j: int|
            0 <= i < j < self.gpu_loads@.len() ==> (#[trigger] self.gpu_loads@[i]).0 != (
            #[trigger] self.gpu_loads@[j]).0)
        &&& (forall|i: int, j: int|
            0 <= i < j < self.task_distribution@.len() ==> (
            #[trigger] self.task_distribution@[i]).0@ != (
            #[trigger] self.task_distribution@[j]).0@)
    }

    /// A balancer with no tracked units and no assignments.
    pub fn new() -> (b: Self)
        ensures
            b.wf(),
            b.gpu_loads@.len() == 0,
            b.task_distribution@.len() == 0,
    {
        LoadBalancer { gpu_loads: Vec::new(), task_distribution: Vec::new() }
    }

    /// The index of the load entry of `unit`, if one exists.
    fn find_unit(&self, unit: usize) -> (r: Option<usize>)
        ensures
            r matches Some(i) ==> i < self.gpu_loads@.len() && self.gpu_loads@[i as int].0 == unit
                && (forall|j: int| 0 <= j < i ==> (#[trigger] self.gpu_loads@[j]).0 != unit),
            r is None ==> forall|j: int|
                0 <= j < self.gpu_loads@.len() ==> (#[trigger] self.gpu_loads@[j]).0 != unit,
    {
        let n = self.gpu_loads.len();
        for i in 0..n
            invariant
                n == self.gpu_loads@.len(),
                forall|j: int| 0 <= j < i ==> (#[trigger] self.gpu_loads@[j]).0 != unit,
        {
            if self.gpu_loads[i].0 == unit {
                return Some(i);
            }
        }
        None
    }

    /// The current load of `unit`, as step counts; 0 if untracked.
    pub fn load_lookup(&self, unit: usize) -> (r: u64)
        ensures
            r == load_of(self.gpu_loads@, unit as int),
    {
        let n = self.gpu_loads.len();
        proof {
            assert(self.gpu_loads@.subrange(0, n as int) =~= self.gpu_loads@);
        }
        for i in 0..n
            invariant
                n == self.gpu_loads@.len(),
                load_of(self.gpu_loads@.subrange(i as int, n as int), unit as int) == load_of(
                    self.gpu_loads@,
                    unit as int,
                ),
        {
            proof {
                assert(self.gpu_loads@.subrange(i as int, n as int)[0] == self.gpu_loads@[
                    i as int
                ]);
                assert(self.gpu_loads@.subrange(i as int, n as int).drop_first()
                    =~= self.gpu_loads@.subrange(i + 1, n as int));
            }
            if self.gpu_loads[i].0 == unit {
                return self.gpu_loads[i].1;
            }
        }
        0
    }

    /// Raises `unit`'s load by one step (tracking it from zero if new);
    /// a load already at the counter's ceiling stays there.
    fn raise_load(&mut self, unit: usize)
        requires
            old(self).wf(),
        ensures
            final(self).wf(),
            final(self).task_distribution == old(self).task_distribution,
            forall|v: int|
                v != unit ==> load_of(final(self).gpu_loads@, v) == load_of(
                    old(self).gpu_loads@,
                    v,
                ),
            load_of(final(self).gpu_loads@, unit as int) == (if load_of(
                old(self).gpu_loads@,
                unit as int,
            ) < u64::MAX {
                load_of(old(self).gpu_loads@, unit as int) + 1
            } else {
                load_of(old(self).gpu_loads@, unit as int)
            }),
    {
        match self.find_unit(unit) {
            Some(i) => {
                let cur = self.gpu_loads[i].1;
                let nl = if cur < u64::MAX {
                    cur + 1
                } else {
                    cur
                };
                let entry = &mut self.gpu_loads[i];
                *entry = (unit, nl);
                proof {
                    assert(cur == load_of(old(self).gpu_loads@, unit as int)) by {
                        lemma_load_of_first_match(old(self).gpu_loads@, i as int, unit);
                    }
                    assert forall|v: int| true implies (v != unit ==> load_of(
                        self.gpu_loads@,
                        v,
                    ) == load_of(old(self).gpu_loads@, v)) && load_of(
                        self.gpu_loads@,
                        unit as int,
                    ) == nl by {
                        lemma_load_of_update(old(self).gpu_loads@, i as int, unit, nl, v);
                    }
                }
            },
            None => {
                self.gpu_loads.push((unit, 1));
                proof {
                    assert(load_of(old(self).gpu_loads@, unit as int) == 0) by {
                        lemma_load_of_no_match(old(self).gpu_loads@, unit);
                    }
                    assert forall|v: int| true implies (v != unit ==> load_of(
                        self.gpu_loads@,
                        v,
                    ) == load_of(old(self).gpu_loads@, v)) && load_of(
                        self.gpu_loads@,
                        unit as int,
                    ) == 1 by {
                        lemma_load_of_push(old(self).gpu_loads@, unit, 1, v);
                    }
                }
            },
        }
    }

    /// Picks the least-loaded of the candidate units (ties go to the
    /// first occurrence) and raises its load by one step. Fails with
    /// `ResourceExhausted` exactly when no candidate is given.
    pub fn select_gpu(&mut self, available_gpus: &Vec<usize>) -> (r: Result<usize, Error>)
        requires
            old(self).wf(),
        ensures
            final(self).wf(),
            final(self).task_distribution == old(self).task_distribution,
            available_gpus@.len() == 0 ==> (r matches Err(e) && e is ResourceExhausted)
                && *final(self) == *old(self),
            available_gpus@.len() > 0 ==> (r matches Ok(u) && {
                let best = best_upto(
                    old(self).gpu_loads@,
                    available_gpus@,
                    available_gpus@.len() as int,
                );
                &&& u == available_gpus@[best]
                &&& (forall|v: int|
                    v != u ==> load_of(final(self).gpu_loads@, v) == load_of(
                        old(self).gpu_loads@,
                        v,
                    ))
                &&& load_of(final(self).gpu_loads@, u as int) == (if load_of(
                    old(self).gpu_loads@,
                    u as int,
                ) < u64::MAX {
                    load_of(old(self).gpu_loads@, u as int) + 1
                } else {
                    load_of(old(self).gpu_loads@, u as int)
                })
            }),
    {
        let n = available_gpus.len();
        if n == 0 {
            return Err(
                Error::ResourceExhausted("no compute unit available".to_string()),
            );
        }
        let mut best_i: usize = 0;
        let mut best_load: u64 = self.load_lookup(available_gpus[0]);
        for i in 1..n
            invariant
                n == available_gpus@.len(),
                best_i < i <= n,
                best_i as int == best_upto(self.gpu_loads@, available_gpus@, i as int),
                best_load == load_of(
                    self.gpu_loads@,
                    available_gpus@[best_i as int] as int,
                ),
        {
            let ld = self.load_lookup(available_gpus[i]);
            if ld < best_load {
                best_i = i;
                best_load = ld;
            }
        }
        let best = available_gpus[best_i];
        self.raise_load(best);
        Ok(best)
    }

    /// Lowers `unit`'s load by one step, clamped at a floor of zero; an
    /// untracked unit stays at zero.
    pub fn release_gpu(&mut self, gpu_id: usize)
        requires
            old(self).wf(),
        ensures
            final(self).wf(),
            final(self).task_distribution == old(self).task_distribution,
            forall|v: int|
                v != gpu_id ==> load_of(final(self).gpu_loads@, v) == load_of(
                    old(self).gpu_loads@,
                    v,
                ),
            load_of(final(self).gpu_loads@, gpu_id as int) == (if load_of(
                old(self).gpu_loads@,
                gpu_id as int,
            ) > 0 {
                load_of(old(self).gpu_loads@, gpu_id as int) - 1
            } else {
                0
            }),
    {
        match self.find_unit(gpu_id) {
            Some(i) => {
                let cur = self.gpu_loads[i].1;
                let nl = if cur > 0 {
                    cur - 1
                } else {
                    0
                };
                let entry = &mut self.gpu_loads[i];
                *entry = (gpu_id, nl);
                proof {
                    assert(cur == load_of(old(self).gpu_loads@, gpu_id as int)) by {
                        lemma_load_of_first_match(old(self).gpu_loads@, i as int, gpu_id);
                    }
                    assert forall|v: int| true implies (v != gpu_id ==> load_of(
                        self.gpu_loads@,
                        v,
                    ) == load_of(old(self).gpu_loads@, v)) && load_of(
                        self.gpu_loads@,
                        gpu_id as int,
                    ) == nl by {
                        lemma_load_of_update(old(self).gpu_loads@, i as int, gpu_id, nl, v);
                    }
                }
            },
            None => {
                proof {
                    lemma_load_of_no_match(self.gpu_loads@, gpu_id);
                }
            },
        }
    }

    /// Records which unit a task was assigned to; a task id is tracked
    /// at most once, and a new assignment overwrites the old one.
    pub fn assign_task(&mut self, task_id: &str, gpu_id: usize)
        requires
            old(self).wf(),
        ensures
            final(self).wf(),
            final(self).gpu_loads == old(self).gpu_loads,
            assigned_unit(final(self).task_distribution@, task_id@) == Some(gpu_id),
            forall|other: Seq<char>|
                other != task_id@ ==> assigned_unit(final(self).task_distribution@, other)
                    == assigned_unit(old(self).task_distribution@, other),
    {
        let key = task_id.to_owned();
        let n = self.task_distribution.len();
        let mut found: Option<usize> = None;
        for i in 0..n
            invariant
                n == self.task_distribution@.len(),
                key@ == task_id@,
                found is None ==> forall|j: int|
                    0 <= j < i ==> (#[trigger] self.task_distribution@[j]).0@ != key@,
                found matches Some(fi) ==> fi < n && self.task_distribution@[fi as int].0@ == key@
                    && (forall|j: int|
                    0 <= j < fi ==> (#[trigger] self.task_distribution@[j]).0@ != key@),
        {
            if found.is_none() && self.task_distribution[i].0 == key {
                found = Some(i);
            }
        }
        match found {
            Some(i) => {
                let entry = &mut self.task_distribution[i];
                *entry = (key, gpu_id);
                proof {
                    assert forall|other: Seq<char>| true implies (other != task_id@
                        ==> assigned_unit(self.task_distribution@, other) == assigned_unit(
                        old(self).task_distribution@,
                        other,
                    )) && assigned_unit(self.task_distribution@, task_id@) == Some(gpu_id) by {
                        lemma_assigned_update(
                            old(self).task_distribution@,
                            i as int,
                            self.task_distribution@[i as int],
                            other,
                        );
                    }
                }
            },
            None => {
                self.task_distribution.push((key, gpu_id));
                proof {
                    assert forall|other: Seq<char>| true implies (other != task_id@
                        ==> assigned_unit(self.task_distribution@, other) == assigned_unit(
                        old(self).task_distribution@,
                        other,
                    )) && assigned_unit(self.task_distribution@, task_id@) == Some(gpu_id) by {
                        lemma_assigned_push(
                            old(self).task_distribution@,
                            self.task_distribution@.last(),
                            other,
                        );
                    }
                }
            },
        }
    }
}

/// A load is never negative.
proof fn lemma_load_of_nonneg(loads: Seq<(usize, u64)>, v: int)
    ensures
        load_of(loads, v) >= 0,
    decreases loads.len(),
{
    if loads.len() > 0 && loads[0].0 != v {
        lemma_load_of_nonneg(loads.drop_first(), v);
    }
}

/// The load of a unit equals the value at its first entry.
proof fn lemma_load_of_first_match(loads: Seq<(usize, u64)>, i: int, unit: usize)
    requires
        0 <= i < loads.len(),
        loads[i].0 == unit,
        forall|j: int| 0 <= j < i ==> (#[trigger] loads[j]).0 != unit,
    ensures
        load_of(loads, unit as int) == loads[i].1,
    decreases loads.len(),
{
    if i > 0 {
        assert forall|j: int| 0 <= j < i - 1 implies (#[trigger] loads.drop_first()[j]).0
            != unit by {
            assert(loads.drop_first()[j] == loads[j + 1]);
        }
        assert(loads.drop_first()[i - 1] == loads[i]);
        lemma_load_of_first_match(loads.drop_first(), i - 1, unit);
    }
}

/// An untracked unit has load zero.
proof fn lemma_load_of_no_match(loads: Seq<(usize, u64)>, unit: usize)
    requires
        forall|j: int| 0 <= j < loads.len() ==> (#[trigger] loads[j]).0 != unit,
    ensures
        load_of(loads, unit as int) == 0,
    decreases loads.len(),
{
    if loads.len() > 0 {
        assert forall|j: int| 0 <= j < loads.drop_first().len() implies (
        #[trigger] loads.drop_first()[j]).0 != unit by {
            assert(loads.drop_first()[j] == loads[j + 1]);
        }
        lemma_load_of_no_match(loads.drop_first(), unit);
    }
}

/// The retry and timeout policy of the executor.
#[derive(Debug, Clone, Copy)]
pub struct ExecPolicy {
    /// Most compute attempts per task; at least one attempt is made.
    pub max_retries: u32,
    /// Base backoff delay; the delay grows linearly with the attempt
    /// count.
    pub base_delay_ms: u64,
    /// Cooperative time budget over all backoff delays of one task.
    pub timeout_ms: u64,
}

impl ExecPolicy {
    /// A policy allows at least one attempt.
    pub open spec fn wf(&self) -> bool {
        self.max_retries >= 1
    }
}

impl Default for ExecPolicy {
    /// The default policy: 3 attempts, 100 ms base backoff, a 30 s
    /// budget.
    fn default() -> (p: Self)
        ensures
            p.max_retries == 3,
            p.base_delay_ms == 100,
            p.timeout_ms == 30000,
            p.wf(),
    {
        ExecPolicy { max_retries: 3, base_delay_ms: 100, timeout_ms: 30000 }
    }
}

/// What to do after a failed compute attempt.
#[derive(Debug, Clone, Copy, PartialEq, Eq, Structural)]
pub enum RetryDecision {
    /// Try again after this backoff delay.
    Retry { delay_ms: u64 },
    /// The retry budget is spent: fail with the last underlying error.
    GiveUp,
    /// The cooperative time budget is spent: fail with `Timeout`.
    TimedOut,
}

/// `a + b`, stopping at the counter's ceiling.
pub open spec fn sat_add_spec(a: u64, b: u64) -> u64 {
    if a + b > u64::MAX {
        u64::MAX
    } else {
        (a + b) as u64
    }
}

/// `a * b`, stopping at the counter's ceiling.
pub open spec fn sat_mul_spec(a: u64, b: u64) -> u64 {
    if a * b > u64::MAX {
        u64::MAX
    } else {
        (a * b) as u64
    }
}

fn sat_add(a: u64, b: u64) -> (r: u64)
    ensures
        r == sat_add_spec(a, b),
{
    if a > u64::MAX - b {
        u64::MAX
    } else {
        a + b
    }
}

fn sat_mul(a: u64, b: u64) -> (r: u64)
    ensures
        r == sat_mul_spec(a, b),
{
    proof {
        assert((a as int) * (b as int) <= u128::MAX) by (nonlinear_arith)
            requires
                0 <= a <= u64::MAX,
                0 <= b <= u64::MAX,
        ;
    }
    let p = (a as u128) * (b as u128);
    if p > u64::MAX as u128 {
        u64::MAX
    } else {
        p as u64
    }
}

/// The decision after failed attempt number `attempts` with `elapsed_ms`
/// of cooperative backoff accumulated so far. Retry-count cap and
/// timeout are two independent stop conditions, evaluated after every
/// attempt; whichever is hit first decides the terminal error. The next
/// backoff delay grows linearly: `base_delay_ms * attempts`.
pub open spec fn retry_decision_spec(p: ExecPolicy, attempts: u32, elapsed_ms: u64) -> RetryDecision {
    if attempts >= p.max_retries {
        RetryDecision::GiveUp
    } else {
        let delay = sat_mul_spec(p.base_delay_ms, attempts as u64);
        if sat_add_spec(elapsed_ms, delay) > p.timeout_ms {
            RetryDecision::TimedOut
        } else {
            RetryDecision::Retry { delay_ms: delay }
        }
    }
}

/// Decides, after a failed attempt, between another attempt with a
/// linearly grown backoff delay, giving up on spent retries, and giving
/// up on a spent time budget (see `retry_decision_spec`).
pub fn retry_decision(policy: &ExecPolicy, attempts: u32, elapsed_ms: u64) -> (r: RetryDecision)
    ensures
        r == retry_decision_spec(*policy, attempts, elapsed_ms),
{
    if attempts >= policy.max_retries {
        RetryDecision::GiveUp
    } else {
        let delay = sat_mul(policy.base_delay_ms, attempts as u64);
        if sat_add(elapsed_ms, delay) > policy.timeout_ms {
            RetryDecision::TimedOut
        } else {
            RetryDecision::Retry { delay_ms: delay }
        }
    }
}

/// The external compute backend, implemented by the surrounding system
/// (for instance a real accelerator kernel). The executor assumes only
/// that the calls are synchronous; every failure of `compute` is treated
/// as retryable.
pub trait MoeAdapter {
    /// Loads the model at `model_path`.
    fn load_model(&mut self, model_path: &str) -> Result<(), Error>;

    /// Runs the opaque compute call on one payload.
    fn compute(&self, input_data: &[u8]) -> Result<Vec<u8>, Error>;

    /// Releases the loaded model.
    fn release_model(&mut self) -> Result<(), Error>;

    /// The id of the loaded model, if one is loaded.
    fn get_model_id(&self) -> Option<&str>;
}

/// Orchestrates one sub-task's execution: a unit from the load balancer,
/// a buffer from the memory pool, the external compute call under the
/// retry and timeout policy, and unconditional return of both resources.
pub struct TaskExecutor {
    pub memory_pool: MemoryPool,
    pub load_balancer: LoadBalancer,
    pub policy: ExecPolicy,
    /// The compute units this executor may assign work to.
    pub device_ids: Vec<usize>,
}

impl TaskExecutor {
    /// The executor's invariant: pool and balancer are well-formed, the
    /// policy allows an attempt, and at least one unit exists.
    pub open spec fn wf(&self) -> bool {
        &&& self.memory_pool.wf()
        &&& self.load_balancer.wf()
        &&& self.policy.wf()
        &&& self.device_ids@.len() >= 1
    }

    /// A new executor over the given compute units, with an empty pool
    /// of the given byte budget.
    pub fn new(max_memory_bytes: usize, device_ids: Vec<usize>, policy: ExecPolicy) -> (e: Self)
        requires
            device_ids@.len() >= 1,
            policy.wf(),
        ensures
            e.wf(),
            e.memory_pool.capacity == max_memory_bytes,
            e.memory_pool.total_allocated == 0,
            e.policy == policy,
            e.device_ids == device_ids,
    {
        TaskExecutor {
            memory_pool: MemoryPool::new(max_memory_bytes),
            load_balancer: LoadBalancer::new(),
            policy,
            device_ids,
        }
    }

    /// Executes one sub-task: moves it to `Running`, picks the
    /// least-loaded unit, acquires a buffer of the payload's size,
    /// copies the payload in, runs the external compute call with up to
    /// `max_retries` attempts under the cooperative timeout, and returns
    /// buffer and unit unconditionally, also on failure. On success the
    /// task ends `Completed` with its result set; on any failure it ends
    /// `Failed`. The pool's budget is never exceeded, nothing new is
    /// allocated when a buffer of the right size is free, and every
    /// unit's load is restored afterwards; when the pool could admit the
    /// payload, a buffer of its size is back on the free list on return.
    /// A failed task keeps the result it had.
    pub fn execute_task<A: MoeAdapter>(&mut self, task: &mut MoeTask, adapter: &A) -> (r: Result<
        Vec<u8>,
        Error,
    >)
        requires
            old(self).wf(),
            old(task).input_data@.len() + old(self).memory_pool.total_allocated <= usize::MAX,
        ensures
            final(self).wf(),
            final(self).memory_pool.capacity == old(self).memory_pool.capacity,
            final(self).policy == old(self).policy,
            final(self).device_ids == old(self).device_ids,
            old(self).memory_pool.total_allocated <= final(self).memory_pool.total_allocated,
            final(self).memory_pool.total_allocated <= old(self).memory_pool.total_allocated + old(
                task,
            ).input_data@.len(),
            pool_has_free(old(self).memory_pool, old(task).input_data@.len() as int)
                ==> final(self).memory_pool.total_allocated
                == old(self).memory_pool.total_allocated,
            forall|v: int|
                load_of(old(self).load_balancer.gpu_loads@, v) < u64::MAX ==> load_of(
                    final(self).load_balancer.gpu_loads@,
                    v,
                ) == load_of(old(self).load_balancer.gpu_loads@, v),
            final(task).task_id == old(task).task_id,
            final(task).input_data == old(task).input_data,
            final(task).priority == old(task).priority,
            final(task).parent_task_id == old(task).parent_task_id,
            pool_has_free(old(self).memory_pool, old(task).input_data@.len() as int)
                || old(self).memory_pool.total_allocated + old(task).input_data@.len()
                <= old(self).memory_pool.capacity ==> pool_has_free(
                final(self).memory_pool,
                old(task).input_data@.len() as int,
            ),
            !pool_has_free(old(self).memory_pool, old(task).input_data@.len() as int)
                && old(self).memory_pool.total_allocated + old(task).input_data@.len()
                > old(self).memory_pool.capacity ==> (r matches Err(e) && e is ResourceExhausted
                && final(self).memory_pool == old(self).memory_pool),
            r matches Ok(out) ==> final(task).status is Completed && (final(task)
                .result matches Some(res) && res@ == out@),
            r is Err ==> final(task).status is Failed && final(task).result == old(task).result,
    {
        task.status = TaskStatus::Running;
        let ghost loads0 = self.load_balancer.gpu_loads@;
        let gpu_id = match self.load_balancer.select_gpu(&self.device_ids) {
            Ok(g) => g,
            Err(e) => {
                task.status = TaskStatus::Failed(e.describe().to_owned());
                return Err(e);
            },
        };
        let ghost loads1 = self.load_balancer.gpu_loads@;
        self.load_balancer.assign_task(task.task_id.as_str(), gpu_id);
        let payload_len = task.input_data.len();
        let mut buffer = match self.memory_pool.acquire(payload_len) {
            Ok(b) => b,
            Err(e) => {
                self.load_balancer.release_gpu(gpu_id);
                proof {
                    assert forall|v: int|
                        load_of(loads0, v) < u64::MAX implies load_of(
                        self.load_balancer.gpu_loads@,
                        v,
                    ) == load_of(loads0, v) by {
                        if v == gpu_id as int {
                            lemma_load_of_nonneg(loads0, v);
                            assert(load_of(loads1, v) == load_of(loads0, v) + 1);
                            assert(load_of(self.load_balancer.gpu_loads@, v) == load_of(
                                loads1,
                                v,
                            ) - 1);
                        } else {
                            assert(load_of(loads1, v) == load_of(loads0, v));
                            assert(load_of(self.load_balancer.gpu_loads@, v) == load_of(
                                loads1,
                                v,
                            ));
                        }
                    }
                }
                task.status = TaskStatus::Failed(e.describe().to_owned());
                return Err(e);
            },
        };
        buffer.data.clear();
        buffer.data.extend_from_slice(task.input_data.as_slice());
        let policy = self.policy;
        let mut attempts: u32 = 0;
        let mut elapsed_ms: u64 = 0;
        let mut finished: Option<Result<Vec<u8>, Error>> = None;
        loop
            invariant_except_break
                finished is None,
                attempts < policy.max_retries,
            invariant
                policy.max_retries >= 1,
            ensures
                finished is Some,
            decreases policy.max_retries - attempts,
        {
            let attempt_result = adapter.compute(buffer.data.as_slice());
            attempts = attempts + 1;
            match attempt_result {
                Ok(bytes) => {
                    finished = Some(Ok(bytes));
                    break;
                },
                Err(e) => {
                    match retry_decision(&policy, attempts, elapsed_ms) {
                        RetryDecision::Retry { delay_ms } => {
                            elapsed_ms = sat_add(elapsed_ms, delay_ms);
                        },
                        RetryDecision::GiveUp => {
                            finished = Some(Err(e));
                            break;
                        },
                        RetryDecision::TimedOut => {
                            finished = Some(Err(Error::Timeout));
                            break;
                        },
                    }
                },
            }
        }
        proof {
            assert(buffer.wf());
        }
        self.memory_pool.release(buffer);
        self.load_balancer.release_gpu(gpu_id);
        proof {
            assert forall|v: int|
                load_of(loads0, v) < u64::MAX implies load_of(
                self.load_balancer.gpu_loads@,
                v,
            ) == load_of(loads0, v) by {
                if v == gpu_id as int {
                    lemma_load_of_nonneg(loads0, v);
                    assert(load_of(loads1, v) == load_of(loads0, v) + 1);
                    assert(load_of(self.load_balancer.gpu_loads@, v) == load_of(loads1, v) - 1);
                } else {
                    assert(load_of(loads1, v) == load_of(loads0, v));
                    assert(load_of(self.load_balancer.gpu_loads@, v) == load_of(loads1, v));
                }
            }
        }
        match finished {
            Some(Ok(bytes)) => {
                task.status = TaskStatus::Completed;
                task.result = Some(copy_bytes(&bytes));
                Ok(bytes)
            },
            Some(Err(e)) => {
                task.status = TaskStatus::Failed(e.describe().to_owned());
                Err(e)
            },
            None => {
                proof {
                    assert(false);
                }
                Err(Error::Timeout)
            },
        }
    }

    /// Executes the tasks in order, stopping at the first failure. On
    /// full success every task is `Completed` and holds its entry of the
    /// returned results; on a failure the failing task is marked
    /// `Failed`, its error is propagated, the tasks before it are
    /// `Completed`, and the tasks after it are untouched — one task's
    /// failure does not corrupt its siblings.
    pub fn execute_tasks<A: MoeAdapter>(&mut self, tasks: &mut Vec<MoeTask>, adapter: &A) -> (r:
        Result<Vec<Vec<u8>>, Error>)
        requires
            old(self).wf(),
            forall|i: int|
                0 <= i < old(tasks)@.len() ==> (#[trigger] old(tasks)@[i]).input_data@.len()
                    + old(self).memory_pool.capacity <= usize::MAX,
        ensures
            final(self).wf(),
            final(self).memory_pool.capacity == old(self).memory_pool.capacity,
            final(tasks)@.len() == old(tasks)@.len(),
            r matches Ok(outs) ==> outs@.len() == final(tasks)@.len() && (forall|i: int|
                0 <= i < final(tasks)@.len() ==> (#[trigger] final(tasks)@[i]).status is Completed
                    && (final(tasks)@[i].result matches Some(res) && res@ == outs@[i]@)),
            r is Err ==> exists|k: int|
                {
                    &&& 0 <= k < final(tasks)@.len()
                    &&& (#[trigger] final(tasks)@[k]).status is Failed
                    &&& (forall|j: int|
                        0 <= j < k ==> (#[trigger] final(tasks)@[j]).status is Completed)
                    &&& (forall|j: int|
                        k < j < final(tasks)@.len() ==> #[trigger] final(tasks)@[j] == old(
                            tasks,
                        )@[j])
                },
    {
        let mut results: Vec<Vec<u8>> = Vec::new();
        let n = tasks.len();
        for i in 0..n
            invariant
                n == tasks@.len(),
                n == old(tasks)@.len(),
                self.wf(),
                self.memory_pool.capacity == old(self).memory_pool.capacity,
                results@.len() == i,
                forall|j: int|
                    0 <= j < i ==> (#[trigger] tasks@[j]).status is Completed && (
                    tasks@[j].result matches Some(res) && res@ == results@[j]@),
                forall|j: int| i <= j < n ==> #[trigger] tasks@[j] == old(tasks)@[j],
                forall|j: int|
                    0 <= j < n ==> (#[trigger] old(tasks)@[j]).input_data@.len()
                        + old(self).memory_pool.capacity <= usize::MAX,
        {
            let t = &mut tasks[i];
            match self.execute_task(t, adapter) {
                Ok(out) => {
                    results.push(out);
                },
                Err(e) => {
                    proof {
                        assert(tasks@[i as int].status is Failed);
                    }
                    return Err(e);
                },
            }
        }
        Ok(results)
    }

    /// The pool's current allocation and its capacity, in bytes.
    pub fn get_memory_status(&self) -> (r: (usize, usize))
        ensures
            r.0 == self.memory_pool.total_allocated,
            r.1 == self.memory_pool.capacity,
    {
        (self.memory_pool.total_allocated, self.memory_pool.capacity)
    }

    /// The tracked load step count of every unit.
    pub fn get_load_status(&self) -> (r: Vec<(usize, u64)>)
        ensures
            r@ == self.load_balancer.gpu_loads@,
    {
        let mut out: Vec<(usize, u64)> = Vec::new();
        let n = self.load_balancer.gpu_loads.len();
        for i in 0..n
            invariant
                n == self.load_balancer.gpu_loads@.len(),
                out@ == self.load_balancer.gpu_loads@.subrange(0, i as int),
        {
            out.push(self.load_balancer.gpu_loads[i]);
            proof {
                assert(out@ =~= self.load_balancer.gpu_loads@.subrange(0, i + 1));
            }
        }
        proof {
            assert(out@ =~= self.load_balancer.gpu_loads@);
        }
        out
    }

    /// Teardown: clears the pool's free lists and the balancer's
    /// tracking; the memory budget and the unit set are kept.
    pub fn cleanup(&mut self) -> (r: Result<(), Error>)
        requires
            old(self).wf(),
        ensures
            final(self).wf(),
            r is Ok,
            final(self).memory_pool.free_buffers@.len() == 0,
            final(self).memory_pool.total_allocated == 0,
            final(self).memory_pool.capacity == old(self).memory_pool.capacity,
            final(self).load_balancer.gpu_loads@.len() == 0,
            final(self).load_balancer.task_distribution@.len() == 0,
            final(self).policy == old(self).policy,
            final(self).device_ids == old(self).device_ids,
    {
        self.memory_pool.teardown();
        self.load_balancer.gpu_loads.clear();
        self.load_balancer.task_distribution.clear();
        Ok(())
    }
}

} // verus!
