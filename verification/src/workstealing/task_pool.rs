use crate::layout::{block_size, class_of, Layout, CLASS_ALIGN, MAX_CLASS_SIZE, NUM_CLASSES};
use vstd::prelude::*;

verus! {

/// A block of memory, known to the pool by its number.
pub type BlockId = u64;

/// Where memory comes from.
#[derive(Debug, Clone, Copy, PartialEq, Eq)]
pub enum Allocation {
    /// A block that was given back before.
    Reused(BlockId),
    /// Memory of this layout, to be allocated.
    Fresh(Layout),
}

/// Blocks that were given back, by size class.
pub struct Pool {
    pub buckets: Vec<Vec<BlockId>>,
}

/// The class of blocks for `size` bytes, if there is one.
pub open spec fn spec_bucket_index(size: usize) -> Option<usize> {
    if size == 0 || size > MAX_CLASS_SIZE {
        None
    } else {
        Some(crate::layout::spec_class_of(size as int) as usize)
    }
}

/// The bucket that memory of `layout` comes from and goes to, if it is pooled at all.
pub open spec fn bucket_of(layout: Layout) -> Option<usize> {
    if layout.align <= CLASS_ALIGN {
        spec_bucket_index(layout.size)
    } else {
        None
    }
}

impl Pool {
    pub open spec fn wf(&self) -> bool {
        self.buckets@.len() == NUM_CLASSES
    }

    pub fn new() -> (pool: Self)
        ensures
            pool.wf(),
            forall|i: int| #![trigger pool.buckets@[i]] 0 <= i < NUM_CLASSES ==> pool.buckets@[i]@.len() == 0,
    {
        let mut buckets: Vec<Vec<BlockId>> = Vec::with_capacity(NUM_CLASSES);
        let mut i: usize = 0;
        while i < NUM_CLASSES
            invariant
                i <= NUM_CLASSES,
                buckets@.len() == i,
                forall|k: int| #![trigger buckets@[k]] 0 <= k < i ==> buckets@[k]@.len() == 0,
            decreases NUM_CLASSES - i,
        {
            buckets.push(Vec::new());
            i += 1;
        }
        Pool { buckets }
    }

    pub fn bucket_index(size: usize) -> (index: Option<usize>)
        ensures
            index == spec_bucket_index(size),
            index matches Some(i) ==> crate::layout::is_class_of(size as int, i as int),
    {
        if size == 0 {
            return None;
        }
        if size > MAX_CLASS_SIZE {
            return None;
        }
        Some(class_of(size))
    }

    /// Finding memory for `layout` turns this pool into `after`. It is the block of the right class
    /// that was given back last, or else a new one of the whole class; memory that is not pooled is
    /// allocated as it is.
    pub open spec fn allocates(&self, layout: Layout, allocation: Allocation, after: &Pool) -> bool {
        match bucket_of(layout) {
            Some(index) => {
                let i = index as int;
                let bucket = self.buckets@[i]@;
                if bucket.len() > 0 {
                    &&& allocation == Allocation::Reused(bucket.last())
                    &&& after.buckets@ == self.buckets@.update(i, after.buckets@[i])
                    &&& after.buckets@[i]@ == bucket.drop_last()
                } else {
                    &&& allocation == Allocation::Fresh(
                        Layout { size: crate::layout::class_size(i) as usize, align: CLASS_ALIGN },
                    )
                    &&& *after == *self
                }
            },
            None => {
                &&& allocation == Allocation::Fresh(layout)
                &&& *after == *self
            },
        }
    }

    /// Taking `block`, of `layout`, back turns this pool into `after`.
    pub open spec fn takes_back(&self, block: BlockId, layout: Layout, after: &Pool) -> bool {
        match bucket_of(layout) {
            Some(index) => {
                let i = index as int;
                &&& after.buckets@ == self.buckets@.update(i, after.buckets@[i])
                &&& after.buckets@[i]@ == self.buckets@[i]@.push(block)
            },
            None => *after == *self,
        }
    }

    /// Finds memory for `layout`.
    pub fn allocate(&mut self, layout: Layout) -> (allocation: Allocation)
        requires
            old(self).wf(),
        ensures
            final(self).wf(),
            old(self).allocates(layout, allocation, final(self)),
    {
        if layout.align <= CLASS_ALIGN {
            if let Some(index) = Self::bucket_index(layout.size) {
                let ghost i = index as int;
                let ghost buckets = self.buckets@;
                if self.buckets[index].len() > 0 {
                    if let Some(block) = self.buckets[index].pop() {
                        assert(self.buckets@ =~= buckets.update(i, self.buckets@[i]));
                        return Allocation::Reused(block);
                    }
                }
                return Allocation::Fresh(Layout { size: block_size(index), align: CLASS_ALIGN });
            }
        }
        Allocation::Fresh(layout)
    }

    /// Takes memory of `layout` back. Says whether the pool keeps it; otherwise it is to be freed.
    pub fn deallocate(&mut self, block: BlockId, layout: Layout) -> (kept: bool)
        requires
            old(self).wf(),
        ensures
            final(self).wf(),
            kept <==> bucket_of(layout) is Some,
            old(self).takes_back(block, layout, final(self)),
    {
        if layout.align <= CLASS_ALIGN {
            if let Some(index) = Self::bucket_index(layout.size) {
                let ghost buckets = self.buckets@;
                self.buckets[index].push(block);
                assert(self.buckets@ =~= buckets.update(index as int, self.buckets@[index as int]));
                return true;
            }
        }
        false
    }
}

/// Memory is large enough for whatever comes from the same bucket: a block is as large as its class,
/// and aligned as strictly as anything that is pooled.
pub proof fn law_block_fits(layout: Layout)
    requires
        bucket_of(layout) is Some,
    ensures
        bucket_of(layout)->0 < NUM_CLASSES,
        layout.size <= crate::layout::class_size(bucket_of(layout)->0 as int),
        layout.align <= CLASS_ALIGN,
{
    crate::layout::law_class_exists(layout.size as int);
}

/// Memory that was given back is the next to be used for anything from the same bucket, and the pool
/// is then as it was.
pub proof fn law_given_back_is_reused(
    first: Pool,
    block: BlockId,
    layout: Layout,
    second: Pool,
    wanted: Layout,
    allocation: Allocation,
    third: Pool,
)
    requires
        first.wf(),
        bucket_of(layout) is Some,
        bucket_of(wanted) == bucket_of(layout),
        first.takes_back(block, layout, &second),
        second.allocates(wanted, allocation, &third),
    ensures
        allocation == Allocation::Reused(block),
        forall|i: int| #![trigger third.buckets@[i]]
            0 <= i < NUM_CLASSES ==> third.buckets@[i]@ == first.buckets@[i]@,
{
    law_block_fits(layout);
    let b = bucket_of(layout)->0 as int;
    assert(second.buckets@[b]@.drop_last() =~= first.buckets@[b]@);
}

} // verus!
