//! The block index: an ordered table of non-overlapping code-point ranges,
//! one per Unicode block, searched by binary search over the range starts.

use vstd::prelude::*;

verus! {

/// One block of the index: a contiguous code-point range `start..=end`, the
/// ordinal `ix` under which its support document is filed, and its name.
#[derive(Debug, Clone)]
pub struct BlockEndpoints {
    pub ix: usize,
    pub start: u32,
    pub end: u32,
    pub name: String,
}

/// Does the block's declared range hold the code point?
pub open spec fn block_contains(b: BlockEndpoints, cp: u32) -> bool {
    b.start <= cp && cp <= b.end
}

/// Well-formedness of the index: each range is nonempty in the weak sense
/// `start <= end`, and the ranges stand in strictly ascending, pairwise
/// disjoint order.
pub open spec fn index_wf(blocks: Seq<BlockEndpoints>) -> bool {
    (forall|i: int| 0 <= i < blocks.len() ==> (#[trigger] blocks[i]).start <= blocks[i].end)
        && (forall|i: int, j: int|
        0 <= i < j < blocks.len() ==> (#[trigger] blocks[i]).end < (#[trigger] blocks[j]).start)
}

/// In a well-formed index no two blocks hold the same code point.
pub proof fn lemma_block_unique(blocks: Seq<BlockEndpoints>, cp: u32, i: int, j: int)
    requires
        index_wf(blocks),
        0 <= i < blocks.len(),
        0 <= j < blocks.len(),
        block_contains(blocks[i], cp),
        block_contains(blocks[j], cp),
    ensures
        i == j,
{
    if i < j {
        assert(blocks[i].end < blocks[j].start);
    }
    if j < i {
        assert(blocks[j].end < blocks[i].start);
    }
}

/// A pairwise-adjacent check of the ordering suffices for the whole index.
pub proof fn lemma_adjacent_ordered(blocks: Seq<BlockEndpoints>, i: int, j: int)
    requires
        forall|k: int|
            0 <= k < blocks.len() ==> (#[trigger] blocks[k]).start <= blocks[k].end,
        forall|k: int|
            0 <= k < blocks.len() - 1 ==> (#[trigger] blocks[k]).end < blocks[k + 1].start,
        0 <= i < j < blocks.len(),
    ensures
        blocks[i].end < blocks[j].start,
    decreases j - i,
{
    if j == i + 1 {
    } else {
        lemma_adjacent_ordered(blocks, i, j - 1);
        assert(blocks[j - 1].end < blocks[j].start);
    }
}

/// For every code point in a block's declared range, any answer meeting the
/// lookup contract names exactly that block: in a well-formed index a lookup
/// can neither miss an owning block nor name another.
pub proof fn lemma_lookup_finds_owner(
    blocks: Seq<BlockEndpoints>,
    cp: u32,
    b: int,
    r: Option<usize>,
)
    requires
        index_wf(blocks),
        0 <= b < blocks.len(),
        block_contains(blocks[b], cp),
        match r {
            Some(i) => i < blocks.len() && block_contains(blocks[i as int], cp),
            None => forall|i: int|
                0 <= i < blocks.len() ==> !block_contains(#[trigger] blocks[i], cp),
        },
    ensures
        r is Some && r->0 == b,
{
    match r {
        Some(i) => {
            lemma_block_unique(blocks, cp, i as int, b);
        },
        None => {
            assert(!block_contains(blocks[b], cp));
        },
    }
}

/// Finds the block owning a code point: `Some(i)` exactly when block `i`'s
/// declared range holds it, `None` when the code point falls in an
/// unassigned gap.
pub fn lookup_block(blocks: &Vec<BlockEndpoints>, cp: u32) -> (r: Option<usize>)
    requires
        index_wf(blocks@),
    ensures
        match r {
            Some(i) => i < blocks@.len() && block_contains(blocks@[i as int], cp),
            None => forall|i: int|
                0 <= i < blocks@.len() ==> !block_contains(#[trigger] blocks@[i], cp),
        },
{
    let mut lo: usize = 0;
    let mut hi: usize = blocks.len();
    while lo < hi
        invariant
            index_wf(blocks@),
            lo <= hi <= blocks@.len(),
            forall|i: int| 0 <= i < lo ==> (#[trigger] blocks@[i]).start <= cp,
            forall|i: int| hi <= i < blocks@.len() ==> (#[trigger] blocks@[i]).start > cp,
        decreases hi - lo,
    {
        let mid = lo + (hi - lo) / 2;
        if blocks[mid].start <= cp {
            proof {
                assert forall|i: int| 0 <= i < mid + 1 implies (#[trigger] blocks@[i]).start
                    <= cp by {
                    if i < mid {
                        assert(blocks@[i].end < blocks@[mid as int].start);
                    }
                }
            }
            lo = mid + 1;
        } else {
            proof {
                assert forall|i: int| mid <= i < blocks@.len() implies (#[trigger] blocks@[i]).start
                    > cp by {
                    if i > mid {
                        assert(blocks@[mid as int].end < blocks@[i].start);
                    }
                }
            }
            hi = mid;
        }
    }
    if lo == 0 {
        return None;
    }
    let i = lo - 1;
    if cp <= blocks[i].end {
        Some(i)
    } else {
        proof {
            assert forall|j: int|
                0 <= j < blocks@.len() implies !block_contains(#[trigger] blocks@[j], cp) by {
                if j < i {
                    assert(blocks@[j].end < blocks@[i as int].start);
                }
            }
        }
        None
    }
}

/// Checks the index invariant at run time: ranges weakly nonempty, strictly
/// ascending and disjoint.
pub fn check_index(blocks: &Vec<BlockEndpoints>) -> (r: bool)
    ensures
        r == index_wf(blocks@),
{
    let n = blocks.len();
    let mut i: usize = 0;
    while i < n
        invariant
            n == blocks@.len(),
            i <= n,
            forall|k: int| 0 <= k < i ==> (#[trigger] blocks@[k]).start <= blocks@[k].end,
            forall|k: int| 0 <= k < i && k < n - 1 ==> (#[trigger] blocks@[k]).end < blocks@[k
                + 1].start,
        decreases n - i,
    {
        if blocks[i].start > blocks[i].end {
            return false;
        }
        if i + 1 < n && blocks[i].end >= blocks[i + 1].start {
            return false;
        }
        i = i + 1;
    }
    proof {
        assert forall|a: int, b: int| 0 <= a < b < blocks@.len() implies (#[trigger] blocks@[a]).end
            < (#[trigger] blocks@[b]).start by {
            lemma_adjacent_ordered(blocks@, a, b);
        }
    }
    true
}

} // verus!
