use vstd::prelude::*;
use crate::sync::queued_stage::QueuedStage;
use crate::sync::stage_checkpoint::{height, heightOf};

verus! {

/// The block a rollback goes down to: the one before the block held
/// responsible, or before the failing stage's own block where none was
/// named. Block 0 has nothing before it.
pub open spec fn rollback_target(responsibleBadBlock: Option<u64>, currentBlock: u64) -> u64 {
    let anchor = match responsibleBadBlock {
        Some(bad) => bad,
        None => currentBlock,
    };
    if anchor == 0 {
        0
    } else {
        (anchor - 1) as u64
    }
}

/// The block a rollback goes down to.
pub fn rollbackTarget(responsibleBadBlock: Option<u64>, currentBlock: u64) -> (target: u64)
    ensures
        target == rollback_target(responsibleBadBlock, currentBlock),
{
    let anchor = match responsibleBadBlock {
        Some(bad) => bad,
        None => currentBlock,
    };
    if anchor == 0 {
        0
    } else {
        anchor - 1
    }
}

/// Whether a rollback to `target` has anything to undo in stage `i`.
pub open spec fn is_above(checkpoints: Seq<Option<u64>>, target: u64, i: int) -> bool {
    0 <= i < checkpoints.len() && height(checkpoints[i]) > target
}

/// Whether stage `i` is rolled back before stage `j`: the higher priority
/// goes first, and of two equal priorities the stage that runs later.
pub open spec fn rolls_back_before(stages: Seq<QueuedStage>, i: int, j: int) -> bool {
    stages[i].rollbackPriority > stages[j].rollbackPriority || (stages[i].rollbackPriority
        == stages[j].rollbackPriority && i > j)
}

/// `order` with stage `n` put in front of the first stage whose priority is
/// not higher than its own.
pub open spec fn insert_by_priority(stages: Seq<QueuedStage>, order: Seq<usize>, n: usize) -> Seq<
    usize,
>
    decreases order.len(),
{
    if order.len() == 0 {
        seq![n]
    } else if stages[order[0] as int].rollbackPriority > stages[n as int].rollbackPriority {
        seq![order[0]] + insert_by_priority(stages, order.drop_first(), n)
    } else {
        seq![n] + order
    }
}

/// The order in which a rollback to `target` visits the first `count` stages
/// of the queue.
pub open spec fn rollback_order_among(
    stages: Seq<QueuedStage>,
    checkpoints: Seq<Option<u64>>,
    target: u64,
    count: nat,
) -> Seq<usize>
    decreases count,
{
    if count == 0 {
        Seq::empty()
    } else {
        let before = rollback_order_among(stages, checkpoints, target, (count - 1) as nat);
        if is_above(checkpoints, target, count - 1) {
            insert_by_priority(stages, before, (count - 1) as usize)
        } else {
            before
        }
    }
}

/// The order in which a rollback to `target` visits the stages: every stage
/// that stands above the target, by falling priority, later stages first
/// among equals.
pub open spec fn rollback_order(
    stages: Seq<QueuedStage>,
    checkpoints: Seq<Option<u64>>,
    target: u64,
) -> Seq<usize> {
    rollback_order_among(stages, checkpoints, target, stages.len())
}

/// What makes a sequence of queue positions the rollback order of the first
/// `count` stages: it holds those of them that stand above the target, each
/// once, and whatever comes earlier in it is rolled back before whatever
/// comes later.
pub open spec fn is_rollback_order_among(
    order: Seq<usize>,
    stages: Seq<QueuedStage>,
    checkpoints: Seq<Option<u64>>,
    target: u64,
    count: nat,
) -> bool {
    &&& forall|k: int|
        0 <= k < order.len() ==> (#[trigger] order[k]) < count && is_above(
            checkpoints,
            target,
            order[k] as int,
        )
    &&& forall|i: int|
        0 <= i < count && #[trigger] is_above(checkpoints, target, i) ==> exists|k: int|
            0 <= k < order.len() && #[trigger] order[k] == i
    &&& forall|a: int, b: int|
        0 <= a < b < order.len() ==> rolls_back_before(
            stages,
            #[trigger] order[a] as int,
            #[trigger] order[b] as int,
        )
}

/// What makes a sequence of queue positions the rollback order of the whole
/// queue.
pub open spec fn is_rollback_order(
    order: Seq<usize>,
    stages: Seq<QueuedStage>,
    checkpoints: Seq<Option<u64>>,
    target: u64,
) -> bool {
    is_rollback_order_among(order, stages, checkpoints, target, stages.len())
}

/// Inserting a stage where the priorities stop being higher than its own is
/// inserting it by priority.
pub proof fn lemma_insert_at(stages: Seq<QueuedStage>, order: Seq<usize>, n: usize, at: int)
    requires
        0 <= at <= order.len(),
        forall|k: int|
            0 <= k < at ==> stages[#[trigger] order[k] as int].rollbackPriority
                > stages[n as int].rollbackPriority,
        at < order.len() ==> stages[order[at] as int].rollbackPriority
            <= stages[n as int].rollbackPriority,
    ensures
        insert_by_priority(stages, order, n) == order.insert(at, n),
    decreases at,
{
    if order.len() == 0 {
        assert(order.insert(at, n) =~= seq![n]);
    } else if at == 0 {
        assert(order.insert(0, n) =~= seq![n] + order);
    } else {
        let rest = order.drop_first();
        assert(stages[order[0] as int].rollbackPriority > stages[n as int].rollbackPriority);
        assert forall|k: int| 0 <= k < at - 1 implies stages[#[trigger] rest[k] as int].rollbackPriority
            > stages[n as int].rollbackPriority by {
            assert(rest[k] == order[k + 1]);
        }
        if at - 1 < rest.len() {
            assert(rest[at - 1] == order[at]);
        }
        lemma_insert_at(stages, rest, n, at - 1);
        assert(order.insert(at, n) =~= seq![order[0]] + rest.insert(at - 1, n));
    }
}

/// Where a stage goes when it is inserted by priority.
pub open spec fn insertion_point(stages: Seq<QueuedStage>, order: Seq<usize>, n: usize) -> int
    decreases order.len(),
{
    if order.len() == 0 {
        0
    } else if stages[order[0] as int].rollbackPriority > stages[n as int].rollbackPriority {
        1 + insertion_point(stages, order.drop_first(), n)
    } else {
        0
    }
}

/// The insertion point splits the order where the priorities stop being
/// higher than the inserted stage's.
pub proof fn lemma_insertion_point(stages: Seq<QueuedStage>, order: Seq<usize>, n: usize)
    ensures
        0 <= insertion_point(stages, order, n) <= order.len(),
        forall|k: int|
            0 <= k < insertion_point(stages, order, n) ==> stages[#[trigger] order[k] as int].rollbackPriority
                > stages[n as int].rollbackPriority,
        insertion_point(stages, order, n) < order.len() ==> stages[order[insertion_point(
            stages,
            order,
            n,
        )] as int].rollbackPriority <= stages[n as int].rollbackPriority,
        insert_by_priority(stages, order, n) == order.insert(
            insertion_point(stages, order, n),
            n,
        ),
    decreases order.len(),
{
    if order.len() == 0 {
    } else if stages[order[0] as int].rollbackPriority > stages[n as int].rollbackPriority {
        let rest = order.drop_first();
        lemma_insertion_point(stages, rest, n);
        let at = insertion_point(stages, rest, n);
        assert forall|k: int| 0 <= k < at + 1 implies stages[#[trigger] order[k] as int].rollbackPriority
            > stages[n as int].rollbackPriority by {
            if k > 0 {
                assert(order[k] == rest[k - 1]);
            }
        }
        if at + 1 < order.len() {
            assert(order[at + 1] == rest[at]);
        }
    } else {
    }
    lemma_insert_at(stages, order, n, insertion_point(stages, order, n));
}

/// Inserting the next stage of the queue by priority keeps a rollback order
/// a rollback order.
pub proof fn lemma_insert_keeps_order(
    stages: Seq<QueuedStage>,
    checkpoints: Seq<Option<u64>>,
    target: u64,
    order: Seq<usize>,
    n: usize,
)
    requires
        n < stages.len(),
        is_above(checkpoints, target, n as int),
        is_rollback_order_among(order, stages, checkpoints, target, n as nat),
    ensures
        is_rollback_order_among(
            insert_by_priority(stages, order, n),
            stages,
            checkpoints,
            target,
            (n + 1) as nat,
        ),
{
    lemma_insertion_point(stages, order, n);
    let at = insertion_point(stages, order, n);
    let grown = order.insert(at, n);
    assert forall|k: int| 0 <= k < grown.len() implies (#[trigger] grown[k]) < n + 1 && is_above(
        checkpoints,
        target,
        grown[k] as int,
    ) by {
        if k < at {
            assert(grown[k] == order[k]);
        } else if k > at {
            assert(grown[k] == order[k - 1]);
        }
    }
    assert forall|i: int| 0 <= i < n + 1 && #[trigger] is_above(checkpoints, target, i) implies exists|
        k: int,
    |
        0 <= k < grown.len() && #[trigger] grown[k] == i by {
        if i == n {
            assert(grown[at] == i);
        } else {
            let k = choose|k: int| 0 <= k < order.len() && #[trigger] order[k] == i;
            if k < at {
                assert(grown[k] == i);
            } else {
                assert(grown[k + 1] == i);
            }
        }
    }
    assert forall|a: int, b: int| 0 <= a < b < grown.len() implies rolls_back_before(
        stages,
        #[trigger] grown[a] as int,
        #[trigger] grown[b] as int,
    ) by {
        let ia = if a < at { a } else { a - 1 };
        let ib = if b < at { b } else { b - 1 };
        if a == at {
            // the inserted stage against a stage that was there before
            assert(grown[b] == order[b - 1]);
            assert(order[b - 1] < n);
            if b - 1 > at {
                assert(rolls_back_before(stages, order[at] as int, order[b - 1] as int));
            }
        } else if b == at {
            assert(grown[a] == order[a]);
        } else {
            assert(grown[a] == order[ia]);
            assert(grown[b] == order[ib]);
            assert(rolls_back_before(stages, order[ia] as int, order[ib] as int));
        }
    }
}

/// The rollback order is a rollback order: it visits exactly the stages that
/// stand above the target, by falling priority, later stages first among
/// equals.
pub proof fn lemma_rollback_order_among(
    stages: Seq<QueuedStage>,
    checkpoints: Seq<Option<u64>>,
    target: u64,
    count: nat,
)
    requires
        count <= stages.len(),
        stages.len() <= usize::MAX,
    ensures
        is_rollback_order_among(
            rollback_order_among(stages, checkpoints, target, count),
            stages,
            checkpoints,
            target,
            count,
        ),
    decreases count,
{
    if count == 0 {
    } else {
        let before = rollback_order_among(stages, checkpoints, target, (count - 1) as nat);
        lemma_rollback_order_among(stages, checkpoints, target, (count - 1) as nat);
        if is_above(checkpoints, target, count - 1) {
            lemma_insert_keeps_order(stages, checkpoints, target, before, (count - 1) as usize);
        } else {
            assert forall|i: int| 0 <= i < count && #[trigger] is_above(checkpoints, target, i) implies exists|
                k: int,
            |
                0 <= k < before.len() && #[trigger] before[k] == i by {
                assert(i < count - 1);
            }
        }
    }
}

/// Two rollback orders of the same queue agree as far as both of them go.
proof fn lemma_rollback_orders_agree(
    first: Seq<usize>,
    second: Seq<usize>,
    stages: Seq<QueuedStage>,
    checkpoints: Seq<Option<u64>>,
    target: u64,
    upto: int,
)
    requires
        is_rollback_order(first, stages, checkpoints, target),
        is_rollback_order(second, stages, checkpoints, target),
        0 <= upto <= first.len(),
        upto <= second.len(),
    ensures
        forall|k: int| 0 <= k < upto ==> first[k] == second[k],
    decreases upto,
{
    if upto > 0 {
        let k = upto - 1;
        lemma_rollback_orders_agree(first, second, stages, checkpoints, target, k);
        let mine = first[k];
        let theirs = second[k];
        if mine != theirs {
            assert(is_above(checkpoints, target, mine as int));
            let there = choose|j: int| 0 <= j < second.len() && #[trigger] second[j] == mine as int;
            if there < k {
                assert(first[there] == second[there]);
                assert(rolls_back_before(stages, first[there] as int, first[k] as int));
            }
            assert(rolls_back_before(stages, second[k] as int, second[there] as int));
            assert(is_above(checkpoints, target, theirs as int));
            let here = choose|j: int| 0 <= j < first.len() && #[trigger] first[j] == theirs as int;
            if here < k {
                assert(first[here] == second[here]);
                assert(rolls_back_before(stages, second[here] as int, second[k] as int));
            }
            assert(rolls_back_before(stages, first[k] as int, first[here] as int));
        }
    }
}

/// There is only one rollback order: what makes a sequence the rollback
/// order of a queue leaves no choice.
pub proof fn lemma_rollback_order_is_unique(
    first: Seq<usize>,
    second: Seq<usize>,
    stages: Seq<QueuedStage>,
    checkpoints: Seq<Option<u64>>,
    target: u64,
)
    requires
        is_rollback_order(first, stages, checkpoints, target),
        is_rollback_order(second, stages, checkpoints, target),
    ensures
        first == second,
{
    let shorter = if first.len() <= second.len() {
        first.len() as int
    } else {
        second.len() as int
    };
    lemma_rollback_orders_agree(first, second, stages, checkpoints, target, shorter);
    if first.len() > second.len() {
        let extra = first[shorter];
        assert(is_above(checkpoints, target, extra as int));
        let there = choose|j: int| 0 <= j < second.len() && #[trigger] second[j] == extra as int;
        assert(first[there] == second[there]);
        assert(rolls_back_before(stages, first[there] as int, first[shorter] as int));
    } else if second.len() > first.len() {
        let extra = second[shorter];
        assert(is_above(checkpoints, target, extra as int));
        let here = choose|j: int| 0 <= j < first.len() && #[trigger] first[j] == extra as int;
        assert(first[here] == second[here]);
        assert(rolls_back_before(stages, second[here] as int, second[shorter] as int));
    }
    assert(first =~= second);
}

/// A rollback visits no more stages than it has looked at.
pub proof fn lemma_rollback_order_len(
    stages: Seq<QueuedStage>,
    checkpoints: Seq<Option<u64>>,
    target: u64,
    count: nat,
)
    ensures
        rollback_order_among(stages, checkpoints, target, count).len() <= count,
    decreases count,
{
    if count > 0 {
        let before = rollback_order_among(stages, checkpoints, target, (count - 1) as nat);
        lemma_rollback_order_len(stages, checkpoints, target, (count - 1) as nat);
        lemma_insertion_point(stages, before, (count - 1) as usize);
    }
}

/// Where the checkpoints do not rise along the queue, the stages that stand
/// above a target are the first stages of the queue.
pub proof fn lemma_stages_above_are_a_prefix(checkpoints: Seq<Option<u64>>, target: u64, i: int, j: int)
    requires
        forall|a: int, b: int|
            0 <= a <= b < checkpoints.len() ==> height(#[trigger] checkpoints[a]) >= height(
                #[trigger] checkpoints[b],
            ),
        0 <= i <= j,
        is_above(checkpoints, target, j),
    ensures
        is_above(checkpoints, target, i),
{
}

/// The order in which a rollback to `target` visits the stages of the queue.
/// A stage without a stored checkpoint stands at block 0 and is never
/// visited.
pub fn rollbackOrder(stages: &Vec<QueuedStage>, checkpoints: &Vec<Option<u64>>, target: u64) -> (order:
    Vec<usize>)
    ensures
        order@ == rollback_order(stages@, checkpoints@, target),
        is_rollback_order(order@, stages@, checkpoints@, target),
        order@.len() <= stages@.len(),
{
    let mut order: Vec<usize> = Vec::new();
    let mut i: usize = 0;
    while i < stages.len()
        invariant
            i <= stages.len(),
            order@ == rollback_order_among(stages@, checkpoints@, target, i as nat),
            is_rollback_order_among(order@, stages@, checkpoints@, target, i as nat),
        decreases stages.len() - i,
    {
        if i < checkpoints.len() && heightOf(checkpoints[i]) > target {
            let mut at: usize = 0;
            while at < order.len() && stages[order[at]].rollbackPriority > stages[i].rollbackPriority
                invariant
                    at <= order.len(),
                    i < stages.len(),
                    forall|k: int| 0 <= k < order.len() ==> (#[trigger] order[k]) < i,
                    forall|k: int|
                        0 <= k < at ==> stages[#[trigger] order[k] as int].rollbackPriority
                            > stages[i as int].rollbackPriority,
                decreases order.len() - at,
            {
                at += 1;
            }
            proof {
                lemma_insert_at(stages@, order@, i, at as int);
                lemma_insert_keeps_order(stages@, checkpoints@, target, order@, i);
            }
            order.insert(at, i);
        } else {
            proof {
                lemma_rollback_order_among(stages@, checkpoints@, target, (i + 1) as nat);
            }
        }
        i += 1;
    }
    proof {
        lemma_rollback_order_len(stages@, checkpoints@, target, stages@.len());
    }
    order
}

} // verus!
