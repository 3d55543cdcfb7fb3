//! Partition of a file into interleaved, per-task block strides.

use vstd::prelude::*;
use vstd::arithmetic::div_mod::lemma_fundamental_div_mod_converse;

verus! {

/// Byte offset of the `round`-th block written by task `task` when
/// `task_count` tasks share a file in blocks of `block_size` bytes.
pub open spec fn offset_of(task: nat, round: nat, block_size: nat, task_count: nat) -> nat {
    task * block_size + round * (block_size * task_count)
}

/// Index, counted in whole blocks from the start of the file, of the block
/// that `offset_of` addresses.
pub open spec fn block_index(task: nat, round: nat, task_count: nat) -> nat {
    task + round * task_count
}

/// The offsets of two different tasks never coincide, and the blocks that
/// start there never overlap, whatever rounds the two tasks are in.
pub proof fn lemma_strides_disjoint(
    a: nat,
    b: nat,
    round_a: nat,
    round_b: nat,
    block_size: nat,
    task_count: nat,
)
    requires
        a < task_count,
        b < task_count,
        a != b,
        block_size > 0,
    ensures
        offset_of(a, round_a, block_size, task_count) != offset_of(
            b,
            round_b,
            block_size,
            task_count,
        ),
        offset_of(a, round_a, block_size, task_count) + block_size <= offset_of(
            b,
            round_b,
            block_size,
            task_count,
        ) || offset_of(b, round_b, block_size, task_count) + block_size <= offset_of(
            a,
            round_a,
            block_size,
            task_count,
        ),
{
    let ia = block_index(a, round_a, task_count);
    let ib = block_index(b, round_b, task_count);
    lemma_offset_is_block_multiple(a, round_a, block_size, task_count);
    lemma_offset_is_block_multiple(b, round_b, block_size, task_count);
    assert(ia != ib) by {
        lemma_fundamental_div_mod_converse(
            ia as int,
            task_count as int,
            round_a as int,
            a as int,
        );
        lemma_fundamental_div_mod_converse(
            ib as int,
            task_count as int,
            round_b as int,
            b as int,
        );
    }
    if ia < ib {
        assert((ia + 1) * block_size <= ib * block_size) by (nonlinear_arith)
            requires
                ia + 1 <= ib,
        ;
        assert((ia + 1) * block_size == ia * block_size + block_size) by (nonlinear_arith);
    } else {
        assert((ib + 1) * block_size <= ia * block_size) by (nonlinear_arith)
            requires
                ib + 1 <= ia,
        ;
        assert((ib + 1) * block_size == ib * block_size + block_size) by (nonlinear_arith);
    }
}

/// All offsets that a task ever writes to.
pub open spec fn offsets_of_task(task: nat, block_size: nat, task_count: nat) -> Set<nat> {
    Set::new(|o: nat| exists|round: nat| o == offset_of(task, round, block_size, task_count))
}

/// The offset sets of two different tasks of a pool have no offset in
/// common.
pub proof fn lemma_offset_sets_disjoint(a: nat, b: nat, block_size: nat, task_count: nat)
    requires
        a < task_count,
        b < task_count,
        a != b,
        block_size > 0,
    ensures
        offsets_of_task(a, block_size, task_count).disjoint(
            offsets_of_task(b, block_size, task_count),
        ),
{
    assert forall|o: nat|
        !(offsets_of_task(a, block_size, task_count).contains(o) && offsets_of_task(
            b,
            block_size,
            task_count,
        ).contains(o)) by {
        if offsets_of_task(a, block_size, task_count).contains(o) && offsets_of_task(
            b,
            block_size,
            task_count,
        ).contains(o) {
            let ra = choose|round: nat| o == offset_of(a, round, block_size, task_count);
            let rb = choose|round: nat| o == offset_of(b, round, block_size, task_count);
            lemma_strides_disjoint(a, b, ra, rb, block_size, task_count);
        }
    }
}

/// The strides interleave without gaps: every block of the file belongs to
/// one task, in one round.
pub proof fn lemma_every_block_has_an_owner(index: nat, task_count: nat)
    requires
        task_count > 0,
    ensures
        index % task_count < task_count,
        block_index(index % task_count, index / task_count, task_count) == index,
{
    vstd::arithmetic::div_mod::lemma_fundamental_div_mod(index as int, task_count as int);
    assert((index / task_count) * task_count == task_count * (index / task_count))
        by (nonlinear_arith);
}

/// An offset is the block index times the block size.
pub proof fn lemma_offset_is_block_multiple(
    task: nat,
    round: nat,
    block_size: nat,
    task_count: nat,
)
    ensures
        offset_of(task, round, block_size, task_count) == block_index(task, round, task_count)
            * block_size,
{
    assert(task * block_size + round * (block_size * task_count) == (task + round * task_count)
        * block_size) by (nonlinear_arith);
}

/// Within one task the offsets grow strictly from round to round, each by
/// the same step of `block_size * task_count`.
pub proof fn lemma_stride_monotonic(task: nat, round: nat, block_size: nat, task_count: nat)
    requires
        block_size > 0,
        task_count > 0,
    ensures
        offset_of(task, round + 1, block_size, task_count) == offset_of(
            task,
            round,
            block_size,
            task_count,
        ) + block_size * task_count,
        offset_of(task, round, block_size, task_count) < offset_of(
            task,
            round + 1,
            block_size,
            task_count,
        ),
{
    assert((round + 1) * (block_size * task_count) == round * (block_size * task_count)
        + block_size * task_count) by (nonlinear_arith);
    assert(block_size * task_count > 0) by (nonlinear_arith)
        requires
            block_size > 0,
            task_count > 0,
    ;
}

/// Offset of one block, computed directly from the formula.
///
/// `None` exactly when the offset does not fit in 64 bits.
pub fn task_offset(task: u64, round: u64, block_size: u64, task_count: u64) -> (r: Option<u64>)
    ensures
        match r {
            Some(v) => v == offset_of(
                task as nat,
                round as nat,
                block_size as nat,
                task_count as nat,
            ),
            None => offset_of(task as nat, round as nat, block_size as nat, task_count as nat)
                > u64::MAX,
        },
{
    assert(task as u128 * block_size as u128 <= 0xFFFF_FFFF_FFFF_FFFF * 0xFFFF_FFFF_FFFF_FFFF)
        by (nonlinear_arith)
        requires
            task as u128 <= 0xFFFF_FFFF_FFFF_FFFF,
            block_size as u128 <= 0xFFFF_FFFF_FFFF_FFFF,
    ;
    let base: u128 = (task as u128) * (block_size as u128);
    if base > u64::MAX as u128 {
        return None;
    }
    if round == 0 {
        assert(0 * (block_size as nat * task_count as nat) == 0) by (nonlinear_arith);
        return Some(base as u64);
    }
    assert(block_size as u128 * task_count as u128 <= 0xFFFF_FFFF_FFFF_FFFF
        * 0xFFFF_FFFF_FFFF_FFFF) by (nonlinear_arith)
        requires
            task_count as u128 <= 0xFFFF_FFFF_FFFF_FFFF,
            block_size as u128 <= 0xFFFF_FFFF_FFFF_FFFF,
    ;
    let step: u128 = (block_size as u128) * (task_count as u128);
    if step > u64::MAX as u128 {
        assert(round as nat * (block_size as nat * task_count as nat) > u64::MAX)
            by (nonlinear_arith)
            requires
                round >= 1,
                block_size as nat * task_count as nat > u64::MAX,
        ;
        return None;
    }
    assert(round as u128 * step <= 0xFFFF_FFFF_FFFF_FFFF * 0xFFFF_FFFF_FFFF_FFFF)
        by (nonlinear_arith)
        requires
            round as u128 <= 0xFFFF_FFFF_FFFF_FFFF,
            step <= 0xFFFF_FFFF_FFFF_FFFF,
    ;
    let total: u128 = base + (round as u128) * step;
    if total > u64::MAX as u128 {
        None
    } else {
        Some(total as u64)
    }
}

/// The walk of one task over its share of the file: where it writes next and
/// how far it jumps after each block.
pub struct Stride {
    task: u64,
    task_count: u64,
    block_size: u64,
    round: Ghost<nat>,
    offset: u64,
}

impl Stride {
    /// The stride keeps its offset on the formula and its task inside the
    /// pool.
    pub closed spec fn wf(&self) -> bool {
        &&& self.task < self.task_count
        &&& self.offset == offset_of(
            self.task as nat,
            self.round@,
            self.block_size as nat,
            self.task_count as nat,
        )
    }

    pub closed spec fn task(&self) -> nat {
        self.task as nat
    }

    pub closed spec fn task_count(&self) -> nat {
        self.task_count as nat
    }

    pub closed spec fn block_size(&self) -> nat {
        self.block_size as nat
    }

    /// Number of blocks already passed over.
    pub closed spec fn round(&self) -> nat {
        self.round@
    }

    /// Offset of the block to write next.
    pub closed spec fn offset(&self) -> nat {
        self.offset as nat
    }

    /// A stride is well formed exactly when its offset is the formula's.
    pub proof fn lemma_wf(&self)
        ensures
            self.wf() <==> (self.task() < self.task_count() && self.offset() == offset_of(
                self.task(),
                self.round(),
                self.block_size(),
                self.task_count(),
            )),
    {
    }

    /// Places task `task` of `task_count` at its first block.
    ///
    /// `None` exactly when the task is not in the pool or its first offset
    /// does not fit in 64 bits.
    pub fn new(task: u64, block_size: u64, task_count: u64) -> (r: Option<Stride>)
        ensures
            r.is_some() <==> (task < task_count && task as nat * block_size as nat <= u64::MAX),
            r matches Some(s) ==> {
                &&& s.wf()
                &&& s.task() == task
                &&& s.task_count() == task_count
                &&& s.block_size() == block_size
                &&& s.round() == 0
                &&& s.offset() == task as nat * block_size as nat
            },
    {
        if task >= task_count {
            return None;
        }
        match task.checked_mul(block_size) {
            Some(offset) => {
                assert(0 * (block_size as nat * task_count as nat) == 0) by (nonlinear_arith);
                Some(Stride { task, task_count, block_size, round: Ghost(0), offset })
            },
            None => None,
        }
    }

    /// Offset of the block to write next.
    pub fn current(&self) -> (r: u64)
        ensures
            r == self.offset(),
    {
        self.offset
    }

    /// Moves on to the task's next block.
    ///
    /// Returns `false`, and leaves the stride as it was, exactly when the
    /// next offset does not fit in 64 bits.
    pub fn advance(&mut self) -> (moved: bool)
        requires
            old(self).wf(),
        ensures
            final(self).wf(),
            final(self).task() == old(self).task(),
            final(self).task_count() == old(self).task_count(),
            final(self).block_size() == old(self).block_size(),
            moved <==> offset_of(
                old(self).task(),
                old(self).round() + 1,
                old(self).block_size(),
                old(self).task_count(),
            ) <= u64::MAX,
            moved ==> final(self).round() == old(self).round() + 1,
            moved ==> final(self).offset() == old(self).offset() + old(self).block_size() * old(
                self,
            ).task_count(),
            !moved ==> *final(self) == *old(self),
    {
        proof {
            let bs = self.block_size as nat;
            let tc = self.task_count as nat;
            let k = self.round@;
            assert((k + 1) * (bs * tc) == k * (bs * tc) + bs * tc) by (nonlinear_arith);
        }
        match self.block_size.checked_mul(self.task_count) {
            Some(step) => match self.offset.checked_add(step) {
                Some(next) => {
                    self.round = Ghost((self.round@ + 1) as nat);
                    self.offset = next;
                    true
                },
                None => false,
            },
            None => false,
        }
    }
}

} // verus!
