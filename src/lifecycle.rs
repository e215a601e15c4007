//! The life of one allocation as a sequence of handle operations, over the
//! same block transitions that `SharedHeap`'s operations are specified by.

use vstd::prelude::*;
use crate::shared::{
    after_strong_dropped, after_weak_dropped, block_valid, slot_valid, strong_of, weak_of,
    with_strong_added, with_weak_added, ControlBlock,
};

verus! {

/// One operation on the handles of a single allocation.
#[derive(Clone, Copy, Debug, PartialEq, Eq, Structural)]
pub enum HandleOp {
    CloneStrong,
    DropStrong,
    Downgrade,
    CloneWeak,
    DropWeak,
    Upgrade,
}

/// Whether `op` can be performed on slot `s`: the handle it starts from
/// exists, and no count would pass `usize::MAX`.
pub open spec fn op_enabled<T>(s: Option<ControlBlock<T>>, op: HandleOp) -> bool {
    match s {
        None => false,
        Some(b) => match op {
            HandleOp::CloneStrong => 0 < b.strong < usize::MAX,
            HandleOp::DropStrong => b.strong > 0,
            HandleOp::Downgrade => b.strong > 0 && b.weak < usize::MAX,
            HandleOp::CloneWeak => 0 < b.weak < usize::MAX,
            HandleOp::DropWeak => b.weak > 0,
            HandleOp::Upgrade => b.weak > 0 && b.strong < usize::MAX,
        },
    }
}

/// The slot after `op`, as `SharedHeap`'s operation leaves it.
pub open spec fn op_result<T>(s: Option<ControlBlock<T>>, op: HandleOp) -> Option<ControlBlock<T>> {
    let b = s->Some_0;
    match op {
        HandleOp::CloneStrong => Some(with_strong_added(b)),
        HandleOp::DropStrong => after_strong_dropped(b),
        HandleOp::Downgrade => Some(with_weak_added(b)),
        HandleOp::CloneWeak => Some(with_weak_added(b)),
        HandleOp::DropWeak => after_weak_dropped(b),
        HandleOp::Upgrade => if b.strong > 0 {
            Some(with_strong_added(b))
        } else {
            s
        },
    }
}

/// Whether `op` destroys the payload: `drop_strong` hands the payload out
/// exactly then.
pub open spec fn op_destroys<T>(s: Option<ControlBlock<T>>, op: HandleOp) -> bool {
    op == HandleOp::DropStrong && s->Some_0.strong == 1
}

/// Whether every operation of `ops` can be performed in turn from `s`.
pub open spec fn ops_enabled<T>(s: Option<ControlBlock<T>>, ops: Seq<HandleOp>) -> bool
    decreases ops.len(),
{
    ops.len() == 0 || (op_enabled(s, ops[0]) && ops_enabled(op_result(s, ops[0]), ops.drop_first()))
}

/// The slot after performing `ops` in turn from `s`.
pub open spec fn run_ops<T>(s: Option<ControlBlock<T>>, ops: Seq<HandleOp>) -> Option<ControlBlock<T>>
    decreases ops.len(),
{
    if ops.len() == 0 {
        s
    } else {
        run_ops(op_result(s, ops[0]), ops.drop_first())
    }
}

/// How many operations of `ops`, performed in turn from `s`, destroy the
/// payload.
pub open spec fn destructions<T>(s: Option<ControlBlock<T>>, ops: Seq<HandleOp>) -> nat
    decreases ops.len(),
{
    if ops.len() == 0 {
        0
    } else {
        (if op_destroys(s, ops[0]) {
            1nat
        } else {
            0nat
        }) + destructions(op_result(s, ops[0]), ops.drop_first())
    }
}

/// How many times `op` occurs in `ops`.
pub open spec fn occurrences(ops: Seq<HandleOp>, op: HandleOp) -> nat
    decreases ops.len(),
{
    if ops.len() == 0 {
        0
    } else {
        (if ops[0] == op {
            1nat
        } else {
            0nat
        }) + occurrences(ops.drop_first(), op)
    }
}

/// Whether `ops` clones and drops strong handles only.
pub open spec fn strong_ops_only(ops: Seq<HandleOp>) -> bool {
    forall|k: int|
        0 <= k < ops.len() ==> #[trigger] ops[k] == HandleOp::CloneStrong || ops[k]
            == HandleOp::DropStrong
}

/// Whether `ops` clones and drops weak handles only.
pub open spec fn weak_ops_only(ops: Seq<HandleOp>) -> bool {
    forall|k: int|
        0 <= k < ops.len() ==> #[trigger] ops[k] == HandleOp::CloneWeak || ops[k]
            == HandleOp::DropWeak
}

/// Every enabled operation keeps a slot valid. The block is freed by exactly
/// the operations that drop its last handle, strong or weak; no operation
/// frees it while another handle remains.
pub proof fn lemma_step_valid<T>(s: Option<ControlBlock<T>>, op: HandleOp)
    requires
        slot_valid(s),
        op_enabled(s, op),
    ensures
        slot_valid(op_result(s, op)),
        op_result(s, op) is None <==> ((op == HandleOp::DropStrong || op == HandleOp::DropWeak)
            && strong_of(s) + weak_of(s) == 1),
        op_result(s, op) is Some ==> strong_of(op_result(s, op)) + weak_of(op_result(s, op)) > 0,
{
}

/// Over any enabled sequence of operations on a valid block, the slot stays
/// valid: it is freed only once both counts are zero, and while it is
/// allocated it holds its payload exactly while the strong count is
/// positive.
pub proof fn lemma_reclaimed_only_at_zero<T>(s: Option<ControlBlock<T>>, ops: Seq<HandleOp>)
    requires
        slot_valid(s),
        ops_enabled(s, ops),
    ensures
        slot_valid(run_ops(s, ops)),
        run_ops(s, ops) is Some ==> strong_of(run_ops(s, ops)) + weak_of(run_ops(s, ops)) > 0,
        run_ops(s, ops) is Some ==> (run_ops(s, ops)->Some_0.payload is Some <==> strong_of(
            run_ops(s, ops),
        ) > 0),
    decreases ops.len(),
{
    if ops.len() > 0 {
        lemma_step_valid(s, ops[0]);
        lemma_reclaimed_only_at_zero(op_result(s, ops[0]), ops.drop_first());
    }
}

/// Counting lemma for one step: a clone adds one to the strong count, a drop
/// takes one away, and the drop destroys the payload exactly when the count
/// reaches zero.
proof fn lemma_strong_step<T>(s: Option<ControlBlock<T>>, op: HandleOp)
    requires
        slot_valid(s),
        op_enabled(s, op),
        op == HandleOp::CloneStrong || op == HandleOp::DropStrong,
    ensures
        op == HandleOp::CloneStrong ==> strong_of(op_result(s, op)) == strong_of(s) + 1,
        op == HandleOp::DropStrong ==> strong_of(op_result(s, op)) + 1 == strong_of(s),
        op_destroys(s, op) <==> strong_of(op_result(s, op)) == 0,
{
}

/// Over any enabled sequence of strong clones and drops from a block whose
/// payload is alive, the strong count ends at its start plus the clones
/// minus the drops, and the payload is destroyed exactly once if the count
/// reached zero (which ends the sequence, as nothing can follow it), and
/// never otherwise.
pub proof fn lemma_strong_count<T>(s: Option<ControlBlock<T>>, ops: Seq<HandleOp>)
    requires
        slot_valid(s),
        strong_of(s) > 0,
        strong_ops_only(ops),
        ops_enabled(s, ops),
    ensures
        strong_of(run_ops(s, ops)) + occurrences(ops, HandleOp::DropStrong) == strong_of(s)
            + occurrences(ops, HandleOp::CloneStrong),
        destructions(s, ops) == (if strong_of(run_ops(s, ops)) == 0 {
            1nat
        } else {
            0nat
        }),
    decreases ops.len(),
{
    if ops.len() > 0 {
        let s1 = op_result(s, ops[0]);
        let rest = ops.drop_first();
        lemma_strong_step(s, ops[0]);
        lemma_step_valid(s, ops[0]);
        assert(strong_ops_only(rest)) by {
            assert forall|k: int| 0 <= k < rest.len() implies #[trigger] rest[k]
                == HandleOp::CloneStrong || rest[k] == HandleOp::DropStrong by {
                assert(rest[k] == ops[k + 1]);
            }
        }
        if strong_of(s1) == 0 {
            if rest.len() > 0 {
                reveal_with_fuel(ops_enabled, 2);
                assert(op_enabled(s1, rest[0]));
                assert(rest[0] == HandleOp::CloneStrong || rest[0] == HandleOp::DropStrong);
                assert(false);
            }
            assert(run_ops(s1, rest) == s1);
            assert(destructions(s1, rest) == 0);
            assert(op_destroys(s, ops[0]));
        } else {
            lemma_strong_count(s1, rest);
            assert(!op_destroys(s, ops[0]));
        }
    }
}

/// Over any enabled sequence of weak clones and drops on an allocated block,
/// the weak count ends at its start plus the clones minus the drops, the
/// strong count does not move, and the block ends freed exactly when both
/// counts are zero.
pub proof fn lemma_weak_count<T>(s: Option<ControlBlock<T>>, ops: Seq<HandleOp>)
    requires
        slot_valid(s),
        s is Some,
        weak_ops_only(ops),
        ops_enabled(s, ops),
    ensures
        weak_of(run_ops(s, ops)) + occurrences(ops, HandleOp::DropWeak) == weak_of(s)
            + occurrences(ops, HandleOp::CloneWeak),
        run_ops(s, ops) is Some ==> strong_of(run_ops(s, ops)) == strong_of(s),
        run_ops(s, ops) is None <==> (strong_of(s) == 0 && weak_of(run_ops(s, ops)) == 0),
    decreases ops.len(),
{
    if ops.len() > 0 {
        let s1 = op_result(s, ops[0]);
        let rest = ops.drop_first();
        lemma_step_valid(s, ops[0]);
        assert(ops[0] == HandleOp::CloneWeak || ops[0] == HandleOp::DropWeak);
        assert(weak_ops_only(rest)) by {
            assert forall|k: int| 0 <= k < rest.len() implies #[trigger] rest[k]
                == HandleOp::CloneWeak || rest[k] == HandleOp::DropWeak by {
                assert(rest[k] == ops[k + 1]);
            }
        }
        if s1 is None {
            if rest.len() > 0 {
                reveal_with_fuel(ops_enabled, 2);
                assert(op_enabled(s1, rest[0]));
                assert(false);
            }
            assert(run_ops(s1, rest) == s1);
        } else {
            lemma_weak_count(s1, rest);
        }
    }
}

/// Upgrading succeeds while the payload is alive and fails right after its
/// last strong handle is dropped, while a weak handle keeps the block.
pub proof fn lemma_upgrade_after_last_drop<T>(b: ControlBlock<T>)
    requires
        block_valid(b),
        b.strong == 1,
        b.weak > 0,
    ensures
        op_enabled(Some(b), HandleOp::Upgrade) ==> strong_of(op_result(Some(b), HandleOp::Upgrade))
            == 2,
        after_strong_dropped(b) is Some,
        strong_of(after_strong_dropped(b)) == 0,
        op_result(after_strong_dropped(b), HandleOp::Upgrade) == after_strong_dropped(b),
{
}

} // verus!
