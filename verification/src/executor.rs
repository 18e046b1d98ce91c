use vstd::prelude::*;
use vstd::seq_lib::*;
use vstd::set_lib::*;

use crate::bitmap::{BitMap, BitMap64};
use crate::coroutine::{Computation, Coroutine, CoroutineId, PollState};
use crate::error::RuntimeError;
use crate::index_allocator::IndexAllocator;
use crate::new_buffer::IPCItem;
use crate::ring_buffer::RingBuffer;

verus! {

/// The fixed size of the task table: the number of ids that can be live
/// at once.
pub const MAX_TASK_NUM: usize = 2048;

/// The number of priority levels; priority 0 runs first.
pub const MAX_PRIO_NUM: usize = 8;

/// The bit width of the deferred-wake mask: only ids below this value can
/// be woken from interrupt context.
pub const DELAY_WAKE_WIDTH: usize = 64;

/// The scheduler-visible state of one live task.
#[verifier::ext_equal]
pub ghost struct TaskView {
    /// The task's fixed priority.
    pub prio: int,
    /// The one-slot delivered payload, if a value is pending.
    pub delivered: Option<IPCItem>,
    /// True while the task's id sits in its priority's ready queue.
    pub enqueued: bool,
    /// How many suspensions the task's computation has left.
    pub yields_left: int,
}

/// The abstract state of an executor: the task table, the per-priority
/// ready queues (ids, oldest first), the deferred-wake mask and the
/// currently running task.
#[verifier::ext_equal]
pub ghost struct ExecView {
    /// Slot `i` holds the state of the live task with id `i`, or `None`.
    pub tasks: Seq<Option<TaskView>>,
    /// Ready queue contents per priority level.
    pub queues: Seq<Seq<int>>,
    /// Bit `i` records that id `i` requested a wake from interrupt
    /// context and has not been drained yet.
    pub mask: Seq<bool>,
    /// The id set by the latest successful fetch; only meaningful while
    /// that task is being executed.
    pub current: Option<int>,
}

/// Well-formedness of one ready-queue entry: it names a live task of that
/// queue's priority, marked as enqueued.
pub open spec fn queue_entry_ok(v: ExecView, p: int, k: int) -> bool {
    let id = v.queues[p][k];
    &&& 0 <= id < MAX_TASK_NUM as int
    &&& v.tasks[id] is Some
    &&& v.tasks[id]->Some_0.prio == p
    &&& v.tasks[id]->Some_0.enqueued
}

/// The executor's state invariant, over the abstract view.
///
/// Together these clauses give the id-lifecycle guarantee: an id without
/// a task (one the allocator could hand out) appears in no ready queue
/// and in no deferred-wake mask bit, and its payload slot does not exist.
pub open spec fn wf_view(v: ExecView) -> bool {
    &&& v.tasks.len() == MAX_TASK_NUM as int
    &&& v.queues.len() == MAX_PRIO_NUM as int
    &&& v.mask.len() == DELAY_WAKE_WIDTH as int
    &&& forall|i: int|
        0 <= i < MAX_TASK_NUM as int && v.tasks[i] is Some ==> 0 <= (#[trigger] v.tasks[i])->Some_0.prio
            < MAX_PRIO_NUM as int
    &&& forall|p: int, k: int|
        0 <= p < MAX_PRIO_NUM as int && 0 <= k < v.queues[p].len() ==> queue_entry_ok(v, p, k)
    &&& forall|p: int| 0 <= p < MAX_PRIO_NUM as int ==> (#[trigger] v.queues[p]).no_duplicates()
    &&& forall|i: int|
        0 <= i < MAX_TASK_NUM as int && v.tasks[i] is Some && (#[trigger] v.tasks[i])->Some_0.enqueued
            ==> v.queues[v.tasks[i]->Some_0.prio].contains(i)
    &&& forall|i: int| 0 <= i < DELAY_WAKE_WIDTH as int && v.mask[i] ==> v.tasks[i] is Some
}

/// The effect of waking id `id`: if the id names a live task that is not
/// already enqueued, the id is appended to its priority's ready queue;
/// in every other case the state is unchanged (wake is idempotent).
pub open spec fn wake_spec(v: ExecView, id: int) -> ExecView {
    if 0 <= id < MAX_TASK_NUM as int && v.tasks[id] is Some && !v.tasks[id]->Some_0.enqueued {
        let t = v.tasks[id]->Some_0;
        ExecView {
            tasks: v.tasks.update(
                id,
                Some(
                    TaskView {
                        prio: t.prio,
                        delivered: t.delivered,
                        enqueued: true,
                        yields_left: t.yields_left,
                    },
                ),
            ),
            queues: v.queues.update(t.prio, v.queues[t.prio].push(id)),
            mask: v.mask,
            current: v.current,
        }
    } else {
        v
    }
}

/// The deferred-wake mask as a sequence of 64 bits.
pub open spec fn mask_word(bits: u64) -> Seq<bool> {
    Seq::new(64, |i: int| (bits >> (i as u64)) & 1u64 == 1u64)
}

/// The state with the deferred-wake mask cleared, everything else as is.
pub open spec fn cleared_mask(v: ExecView) -> ExecView {
    ExecView { tasks: v.tasks, queues: v.queues, mask: Seq::new(64, |i: int| false), current: v.current }
}

/// Waking, in ascending id order, every id whose bit is set in `bits`,
/// starting from bit `i`.
pub open spec fn drain_bits(v: ExecView, bits: Seq<bool>, i: int) -> ExecView
    decreases 64 - i,
{
    if i < 0 || i >= 64 {
        v
    } else {
        drain_bits(
            if bits[i] {
                wake_spec(v, i)
            } else {
                v
            },
            bits,
            i + 1,
        )
    }
}

/// The effect of draining the deferred-wake mask: the mask is swapped to
/// zero and every id whose bit was set receives an ordinary wake.
pub open spec fn drained(v: ExecView) -> ExecView {
    drain_bits(cleared_mask(v), v.mask, 0)
}

/// The lowest priority level at or after `p` whose ready queue is not
/// empty, or the number of levels when all are empty.
pub open spec fn first_ready_prio(v: ExecView, p: int) -> int
    decreases MAX_PRIO_NUM as int - p,
{
    if p < 0 || p >= MAX_PRIO_NUM as int {
        MAX_PRIO_NUM as int
    } else if v.queues[p].len() > 0 {
        p
    } else {
        first_ready_prio(v, p + 1)
    }
}

/// The selection half of a fetch, applied to the already-drained state:
/// pop the head of the lowest non-empty priority queue, clear the task's
/// enqueued flag and make it current.
pub open spec fn select_spec(d: ExecView) -> (ExecView, Option<int>) {
    let p = first_ready_prio(d, 0);
    if p == MAX_PRIO_NUM as int {
        (d, None)
    } else {
        let id = d.queues[p][0];
        let t = d.tasks[id]->Some_0;
        (
            ExecView {
                tasks: d.tasks.update(
                    id,
                    Some(
                        TaskView {
                            prio: t.prio,
                            delivered: t.delivered,
                            enqueued: false,
                            yields_left: t.yields_left,
                        },
                    ),
                ),
                queues: d.queues.update(p, d.queues[p].drop_first()),
                mask: d.mask,
                current: Some(id),
            },
            Some(id),
        )
    }
}

/// The full effect of a fetch: drain the deferred-wake mask, then select.
pub open spec fn fetch_spec(v: ExecView) -> (ExecView, Option<int>) {
    select_spec(drained(v))
}

/// The effect of delivering payload `item` to task `id`: the task's
/// one-slot payload is overwritten and the task is woken. An id without
/// a task leaves the state unchanged.
pub open spec fn deliver_spec(v: ExecView, id: int, item: IPCItem) -> ExecView {
    if 0 <= id < MAX_TASK_NUM as int && v.tasks[id] is Some {
        let t = v.tasks[id]->Some_0;
        let stored = ExecView {
            tasks: v.tasks.update(
                id,
                Some(
                    TaskView {
                        prio: t.prio,
                        delivered: Some(item),
                        enqueued: t.enqueued,
                        yields_left: t.yields_left,
                    },
                ),
            ),
            queues: v.queues,
            mask: v.mask,
            current: v.current,
        };
        wake_spec(stored, id)
    } else {
        v
    }
}

/// The number of live tasks in slots `i` and beyond.
pub open spec fn spec_live_count(tasks: Seq<Option<TaskView>>, i: int) -> int
    decreases tasks.len() - i,
{
    if i < 0 || i >= tasks.len() {
        0
    } else {
        (if tasks[i] is Some {
            1int
        } else {
            0int
        }) + spec_live_count(tasks, i + 1)
    }
}

/// How a slot update moves the live count.
proof fn lemma_live_count_update(tasks: Seq<Option<TaskView>>, j: int, t: Option<TaskView>, i: int)
    requires
        0 <= i <= tasks.len(),
        0 <= j < tasks.len(),
    ensures
        i <= j ==> spec_live_count(tasks.update(j, t), i) == spec_live_count(tasks, i) + (if t is Some {
            1int
        } else {
            0int
        }) - (if tasks[j] is Some {
            1int
        } else {
            0int
        }),
        i > j ==> spec_live_count(tasks.update(j, t), i) == spec_live_count(tasks, i),
    decreases tasks.len() - i,
{
    if i < tasks.len() {
        lemma_live_count_update(tasks, j, t, i + 1);
    }
}

/// The live count is bounded by the number of remaining slots, strictly
/// when a free slot remains.
proof fn lemma_live_count_bounds(tasks: Seq<Option<TaskView>>, i: int)
    requires
        0 <= i <= tasks.len(),
    ensures
        0 <= spec_live_count(tasks, i) <= tasks.len() - i,
        forall|j: int|
            i <= j < tasks.len() && tasks[j] is None ==> spec_live_count(tasks, i) <= tasks.len() - i
                - 1,
        forall|j: int|
            i <= j < tasks.len() && tasks[j] is Some ==> spec_live_count(tasks, i) >= 1,
    decreases tasks.len() - i,
{
    if i < tasks.len() {
        lemma_live_count_bounds(tasks, i + 1);
    }
}

/// A zero live count means every remaining slot is free, and conversely.
proof fn lemma_live_count_zero(tasks: Seq<Option<TaskView>>, i: int)
    requires
        0 <= i <= tasks.len(),
    ensures
        (spec_live_count(tasks, i) == 0) == (forall|j: int|
            i <= j < tasks.len() ==> tasks[j] is None),
    decreases tasks.len() - i,
{
    if i < tasks.len() {
        lemma_live_count_zero(tasks, i + 1);
        lemma_live_count_bounds(tasks, i + 1);
    }
}

/// Pigeonhole bound used to show a ready queue can always take one more
/// id: a duplicate-free sequence over `0..bound` that misses at least one
/// value of that range is shorter than `bound`.
proof fn lemma_distinct_seq_missing(q: Seq<int>, bound: int, missing: int)
    requires
        q.no_duplicates(),
        forall|k: int| 0 <= k < q.len() ==> 0 <= #[trigger] q[k] < bound,
        0 <= missing < bound,
        !q.contains(missing),
    ensures
        q.len() < bound,
{
    broadcast use vstd::seq_lib::group_seq_properties;

    q.unique_seq_to_set();
    let range = set_int_range(0, bound);
    lemma_int_range(0, bound);
    let universe = range.remove(missing);
    assert forall|x: int| q.to_set().contains(x) implies universe.contains(x) by {
        assert(q.contains(x));
    }
    lemma_len_subset(q.to_set(), universe);
    assert(universe.len() == bound - 1);
}

/// Characterizes `first_ready_prio` from below: scanning from `k`
/// reaches `p` when every queue before `p` is empty and `p` (if it is a
/// real level) is not.
proof fn lemma_first_ready_from(v: ExecView, k: int, p: int)
    requires
        0 <= k <= p <= MAX_PRIO_NUM as int,
        p < MAX_PRIO_NUM as int ==> v.queues[p].len() > 0,
        forall|q: int| k <= q < p ==> v.queues[q].len() == 0,
    ensures
        first_ready_prio(v, k) == p,
    decreases p - k,
{
    if k < p {
        lemma_first_ready_from(v, k + 1, p);
    }
}

/// What draining bits `k..64` does to the task table: no task appears or
/// disappears, every task keeps its priority, payload and computation,
/// enqueued tasks stay enqueued, and every task whose bit is set ends up
/// enqueued. The queues only grow at the tail.
proof fn lemma_drain_bits_props(v: ExecView, bits: Seq<bool>, k: int)
    requires
        0 <= k,
        v.tasks.len() == MAX_TASK_NUM as int,
        v.queues.len() == MAX_PRIO_NUM as int,
        forall|i: int|
            0 <= i < MAX_TASK_NUM as int && v.tasks[i] is Some ==> 0 <= (
            #[trigger] v.tasks[i])->Some_0.prio < MAX_PRIO_NUM as int,
    ensures
        drain_bits(v, bits, k).tasks.len() == v.tasks.len(),
        drain_bits(v, bits, k).queues.len() == v.queues.len(),
        drain_bits(v, bits, k).mask == v.mask,
        drain_bits(v, bits, k).current == v.current,
        forall|i: int|
            0 <= i < MAX_TASK_NUM as int ==> ((#[trigger] drain_bits(v, bits, k).tasks[i]) is Some
                <==> v.tasks[i] is Some),
        forall|i: int|
            0 <= i < MAX_TASK_NUM as int && v.tasks[i] is Some ==> {
                let t0 = v.tasks[i]->Some_0;
                let t1 = (#[trigger] drain_bits(v, bits, k).tasks[i])->Some_0;
                t1.prio == t0.prio && t1.delivered == t0.delivered && t1.yields_left
                    == t0.yields_left
            },
        forall|i: int|
            0 <= i < MAX_TASK_NUM as int && v.tasks[i] is Some && v.tasks[i]->Some_0.enqueued
                ==> (#[trigger] drain_bits(v, bits, k).tasks[i])->Some_0.enqueued,
        forall|i: int|
            k <= i < 64 && bits[i] && 0 <= i < MAX_TASK_NUM as int && v.tasks[i] is Some ==> (
            #[trigger] drain_bits(v, bits, k).tasks[i])->Some_0.enqueued,
    decreases 64 - k,
{
    if 0 <= k < 64 {
        let v1 = if bits[k] {
            wake_spec(v, k)
        } else {
            v
        };
        assert forall|i: int|
            0 <= i < MAX_TASK_NUM as int && v1.tasks[i] is Some implies 0 <= (
        #[trigger] v1.tasks[i])->Some_0.prio < MAX_PRIO_NUM as int by {
            if i != k {
                assert(v.tasks[i] is Some);
            }
        }
        lemma_drain_bits_props(v1, bits, k + 1);
        assert forall|i: int|
            k <= i < 64 && bits[i] && 0 <= i < MAX_TASK_NUM as int && v.tasks[i] is Some implies (
        #[trigger] drain_bits(v, bits, k).tasks[i])->Some_0.enqueued by {
            if i == k {
                assert(v1.tasks[k] is Some && v1.tasks[k]->Some_0.enqueued);
            } else {
                assert(v1.tasks[i] is Some);
            }
            assert(drain_bits(v1, bits, k + 1).tasks[i]->Some_0.enqueued);
        }
    }
}

/// The total number of ids in ready queues `p` and beyond.
pub open spec fn ready_count_from(v: ExecView, p: int) -> int
    decreases MAX_PRIO_NUM as int - p,
{
    if p < 0 || p >= MAX_PRIO_NUM as int {
        0
    } else {
        v.queues[p].len() + ready_count_from(v, p + 1)
    }
}

/// Every live task is ready (enqueued) and will finish on its next
/// resumption: the one state in which a drive loop is certain to drain
/// the whole task table.
pub open spec fn all_ready_and_finishing(v: ExecView) -> bool {
    forall|i: int|
        0 <= i < MAX_TASK_NUM as int && v.tasks[i] is Some ==> ((
        #[trigger] v.tasks[i])->Some_0.enqueued && v.tasks[i]->Some_0.yields_left == 0)
}

/// The number of set bits at positions `k..64`.
pub open spec fn popcount_from(bits: Seq<bool>, k: int) -> int
    decreases 64 - k,
{
    if k < 0 || k >= 64 {
        0
    } else {
        (if bits[k] {
            1int
        } else {
            0int
        }) + popcount_from(bits, k + 1)
    }
}

proof fn lemma_popcount_nonneg(bits: Seq<bool>, k: int)
    ensures
        popcount_from(bits, k) >= 0,
    decreases 64 - k,
{
    if 0 <= k < 64 {
        lemma_popcount_nonneg(bits, k + 1);
    }
}

proof fn lemma_popcount_all_false(bits: Seq<bool>, k: int)
    requires
        forall|i: int| 0 <= i < 64 ==> !bits[i],
    ensures
        popcount_from(bits, k) == 0,
    decreases 64 - k,
{
    if 0 <= k < 64 {
        lemma_popcount_all_false(bits, k + 1);
    }
}

proof fn lemma_popcount_update_clear(bits: Seq<bool>, j: int, k: int)
    requires
        bits.len() == 64,
        0 <= j < 64,
    ensures
        popcount_from(bits.update(j, false), k) <= popcount_from(bits, k),
    decreases 64 - k,
{
    if 0 <= k < 64 {
        lemma_popcount_update_clear(bits, j, k + 1);
    }
}

proof fn lemma_ready_count_nonneg(v: ExecView, j: int)
    ensures
        ready_count_from(v, j) >= 0,
    decreases MAX_PRIO_NUM as int - j,
{
    if 0 <= j < MAX_PRIO_NUM as int {
        lemma_ready_count_nonneg(v, j + 1);
    }
}

/// The ready count reads nothing but the queues.
proof fn lemma_ready_count_queues_only(v1: ExecView, v2: ExecView, j: int)
    requires
        v2.queues == v1.queues,
    ensures
        ready_count_from(v2, j) == ready_count_from(v1, j),
    decreases MAX_PRIO_NUM as int - j,
{
    if 0 <= j < MAX_PRIO_NUM as int {
        lemma_ready_count_queues_only(v1, v2, j + 1);
    }
}

/// How replacing one queue moves the ready count.
proof fn lemma_ready_count_parts(v1: ExecView, v2: ExecView, p: int, j: int)
    requires
        0 <= p < MAX_PRIO_NUM as int,
        v1.queues.len() == MAX_PRIO_NUM as int,
        v2.queues == v1.queues.update(p, v2.queues[p]),
        0 <= j <= MAX_PRIO_NUM as int,
    ensures
        ready_count_from(v2, j) == ready_count_from(v1, j) + (if j <= p {
            v2.queues[p].len() - v1.queues[p].len()
        } else {
            0int
        }),
    decreases MAX_PRIO_NUM as int - j,
{
    if j < MAX_PRIO_NUM as int {
        lemma_ready_count_parts(v1, v2, p, j + 1);
    }
}

/// Draining bits `k..64` grows the ready queues by at most one entry
/// per set bit.
proof fn lemma_drain_ready_bound(v: ExecView, bits: Seq<bool>, k: int)
    requires
        0 <= k,
        v.tasks.len() == MAX_TASK_NUM as int,
        v.queues.len() == MAX_PRIO_NUM as int,
        forall|i: int|
            0 <= i < MAX_TASK_NUM as int && v.tasks[i] is Some ==> 0 <= (
            #[trigger] v.tasks[i])->Some_0.prio < MAX_PRIO_NUM as int,
    ensures
        ready_count_from(drain_bits(v, bits, k), 0) <= ready_count_from(v, 0) + popcount_from(
            bits,
            k,
        ),
    decreases 64 - k,
{
    if k < 64 {
        let v1 = if bits[k] {
            wake_spec(v, k)
        } else {
            v
        };
        assert forall|i: int|
            0 <= i < MAX_TASK_NUM as int && v1.tasks[i] is Some implies 0 <= (
        #[trigger] v1.tasks[i])->Some_0.prio < MAX_PRIO_NUM as int by {
            if i != k {
                assert(v.tasks[i] is Some);
            }
        }
        lemma_drain_ready_bound(v1, bits, k + 1);
        if bits[k] && 0 <= k < MAX_TASK_NUM as int && v.tasks[k] is Some
            && !v.tasks[k]->Some_0.enqueued {
            lemma_ready_count_parts(v, v1, v.tasks[k]->Some_0.prio, 0);
        } else {
            lemma_ready_count_queues_only(v, v1, 0);
        }
        lemma_popcount_nonneg(bits, k + 1);
    } else {
        lemma_popcount_nonneg(bits, k);
    }
}

/// Changing one live task's payload slot or computation state — its
/// priority and enqueued flag staying put — preserves
/// well-formedness.
proof fn lemma_wf_view_task_state_change(v1: ExecView, v2: ExecView, id: int, t2: TaskView)
    requires
        wf_view(v1),
        0 <= id < MAX_TASK_NUM as int,
        v1.tasks[id] is Some,
        t2.prio == v1.tasks[id]->Some_0.prio,
        t2.enqueued == v1.tasks[id]->Some_0.enqueued,
        v2.tasks == v1.tasks.update(id, Some(t2)),
        v2.queues == v1.queues,
        v2.mask == v1.mask,
    ensures
        wf_view(v2),
{
    assert forall|i: int|
        0 <= i < MAX_TASK_NUM as int && v2.tasks[i] is Some implies 0 <= (
    #[trigger] v2.tasks[i])->Some_0.prio < MAX_PRIO_NUM as int by {
        assert(v1.tasks[i] is Some);
    }
    assert forall|p: int, k: int|
        0 <= p < MAX_PRIO_NUM as int && 0 <= k < v2.queues[p].len() implies queue_entry_ok(
        v2,
        p,
        k,
    ) by {
        assert(queue_entry_ok(v1, p, k));
    }
    assert forall|i: int|
        0 <= i < MAX_TASK_NUM as int && v2.tasks[i] is Some && (
        #[trigger] v2.tasks[i])->Some_0.enqueued implies v2.queues[v2.tasks[i]->Some_0.prio].contains(
        i,
    ) by {
        assert(v1.tasks[i] is Some && v1.tasks[i]->Some_0.enqueued);
        assert(v1.queues[v1.tasks[i]->Some_0.prio].contains(i));
    }
    assert forall|i: int|
        0 <= i < DELAY_WAKE_WIDTH as int && v2.mask[i] implies v2.tasks[i] is Some by {
        assert(v1.tasks[i] is Some);
    }
}

/// Id lifecycle: an id whose table slot is free — exactly the ids the
/// allocator can hand out, and what `spawn` returns — sits in no ready
/// queue and has no deferred-wake bit set; its payload slot does not
/// exist at all. So an id is never recycled while anything in the
/// executor still refers to it.
pub proof fn lemma_free_id_unreferenced(v: ExecView, id: int)
    requires
        wf_view(v),
        0 <= id < MAX_TASK_NUM as int,
        v.tasks[id] is None,
    ensures
        forall|p: int| 0 <= p < MAX_PRIO_NUM as int ==> !(#[trigger] v.queues[p]).contains(id),
        id < DELAY_WAKE_WIDTH as int ==> !v.mask[id],
{
    assert forall|p: int| 0 <= p < MAX_PRIO_NUM as int implies !(
    #[trigger] v.queues[p]).contains(id) by {
        if v.queues[p].contains(id) {
            let k = choose|k: int| 0 <= k < v.queues[p].len() && v.queues[p][k] == id;
            assert(queue_entry_ok(v, p, k));
        }
    }
}

/// Targeted delivery: delivering two replies to two distinct live
/// origin ids stores each record in exactly its own task's payload
/// slot — no cross-delivery, whatever order the replies arrive in.
pub proof fn lemma_targeted_delivery(
    v: ExecView,
    id_a: int,
    item_a: crate::new_buffer::IPCItem,
    id_b: int,
    item_b: crate::new_buffer::IPCItem,
)
    requires
        wf_view(v),
        0 <= id_a < MAX_TASK_NUM as int,
        0 <= id_b < MAX_TASK_NUM as int,
        id_a != id_b,
        v.tasks[id_a] is Some,
        v.tasks[id_b] is Some,
    ensures
        ({
            let v2 = deliver_spec(deliver_spec(v, id_a, item_a), id_b, item_b);
            &&& v2.tasks[id_a] is Some
            &&& v2.tasks[id_b] is Some
            &&& v2.tasks[id_a]->Some_0.delivered == Some(item_a)
            &&& v2.tasks[id_b]->Some_0.delivered == Some(item_b)
        }),
{
    let v1 = deliver_spec(v, id_a, item_a);
    assert(v1.tasks[id_a] is Some && v1.tasks[id_a]->Some_0.delivered == Some(item_a));
    assert(v1.tasks[id_b] == v.tasks[id_b]);
    let v2 = deliver_spec(v1, id_b, item_b);
    assert(v2.tasks[id_b] is Some && v2.tasks[id_b]->Some_0.delivered == Some(item_b));
    assert(v2.tasks[id_a] == v1.tasks[id_a]);
}

/// `first_ready_prio` always lands between its start and the number of
/// levels.
proof fn lemma_first_ready_range(v: ExecView, k: int)
    requires
        0 <= k <= MAX_PRIO_NUM as int,
    ensures
        k <= first_ready_prio(v, k) <= MAX_PRIO_NUM as int,
        first_ready_prio(v, k) < MAX_PRIO_NUM as int ==> v.queues[first_ready_prio(v, k)].len()
            > 0,
    decreases MAX_PRIO_NUM as int - k,
{
    if k < MAX_PRIO_NUM as int && v.queues[k].len() == 0 {
        lemma_first_ready_range(v, k + 1);
    }
}

/// A wake preserves well-formedness of the view.
proof fn lemma_wake_spec_wf(v: ExecView, id: int)
    requires
        wf_view(v),
    ensures
        wf_view(wake_spec(v, id)),
{
    if 0 <= id < MAX_TASK_NUM as int && v.tasks[id] is Some && !v.tasks[id]->Some_0.enqueued {
        let t = v.tasks[id]->Some_0;
        let prio = t.prio;
        let w = wake_spec(v, id);
        assert forall|i: int|
            0 <= i < MAX_TASK_NUM as int && w.tasks[i] is Some implies 0 <= (
        #[trigger] w.tasks[i])->Some_0.prio < MAX_PRIO_NUM as int by {
            if i != id {
                assert(v.tasks[i] is Some);
            }
        }
        assert forall|p: int, k: int|
            0 <= p < MAX_PRIO_NUM as int && 0 <= k < w.queues[p].len() implies queue_entry_ok(
            w,
            p,
            k,
        ) by {
            if p == prio && k == w.queues[p].len() - 1 {
                assert(w.queues[p][k] == id);
            } else {
                assert(queue_entry_ok(v, p, k));
            }
        }
        assert forall|p: int| 0 <= p < MAX_PRIO_NUM as int implies (
        #[trigger] w.queues[p]).no_duplicates() by {
            if p == prio {
                assert(!v.queues[prio].contains(id)) by {
                    if v.queues[prio].contains(id) {
                        let k = choose|k: int|
                            0 <= k < v.queues[prio].len() && v.queues[prio][k] == id;
                        assert(queue_entry_ok(v, prio, k));
                    }
                }
                assert(w.queues[prio].no_duplicates());
            }
        }
        assert forall|i: int|
            0 <= i < MAX_TASK_NUM as int && w.tasks[i] is Some && (
            #[trigger] w.tasks[i])->Some_0.enqueued implies w.queues[w.tasks[i]->Some_0.prio].contains(
            i,
        ) by {
            if i == id {
                assert(w.queues[prio][w.queues[prio].len() - 1] == id);
            } else {
                assert(v.tasks[i] is Some && v.tasks[i]->Some_0.enqueued);
                let tp = v.tasks[i]->Some_0.prio;
                assert(v.queues[tp].contains(i));
                let k = choose|k: int| 0 <= k < v.queues[tp].len() && v.queues[tp][k] == i;
                assert(w.queues[tp][k] == i);
            }
        }
        assert forall|i: int|
            0 <= i < DELAY_WAKE_WIDTH as int && w.mask[i] implies w.tasks[i] is Some by {
            assert(v.tasks[i] is Some);
        }
    }
}

/// A drain preserves well-formedness of the view.
proof fn lemma_drain_wf(v: ExecView, bits: Seq<bool>, k: int)
    requires
        wf_view(v),
        0 <= k,
    ensures
        wf_view(drain_bits(v, bits, k)),
    decreases 64 - k,
{
    if k < 64 {
        let v1 = if bits[k] {
            wake_spec(v, k)
        } else {
            v
        };
        lemma_wake_spec_wf(v, k);
        lemma_drain_wf(v1, bits, k + 1);
    }
}

/// The drained state is well-formed.
proof fn lemma_drained_wf(v: ExecView)
    requires
        wf_view(v),
    ensures
        wf_view(drained(v)),
{
    let c = cleared_mask(v);
    assert forall|p: int, k: int|
        0 <= p < MAX_PRIO_NUM as int && 0 <= k < c.queues[p].len() implies queue_entry_ok(
        c,
        p,
        k,
    ) by {
        assert(queue_entry_ok(v, p, k));
    }
    assert forall|i: int|
        0 <= i < MAX_TASK_NUM as int && c.tasks[i] is Some && (
        #[trigger] c.tasks[i])->Some_0.enqueued implies c.queues[c.tasks[i]->Some_0.prio].contains(
        i,
    ) by {
        assert(v.tasks[i] is Some && v.tasks[i]->Some_0.enqueued);
    }
    lemma_drain_wf(c, v.mask, 0);
}

/// Changing only the deferred-wake mask preserves well-formedness, as
/// long as every set bit still names a live task.
proof fn lemma_wf_view_mask_change(v1: ExecView, v2: ExecView)
    requires
        wf_view(v1),
        v2.tasks == v1.tasks,
        v2.queues == v1.queues,
        v2.current == v1.current,
        v2.mask.len() == DELAY_WAKE_WIDTH as int,
        forall|i: int| 0 <= i < DELAY_WAKE_WIDTH as int && v2.mask[i] ==> v2.tasks[i] is Some,
    ensures
        wf_view(v2),
{
    assert forall|p: int, k: int|
        0 <= p < MAX_PRIO_NUM as int && 0 <= k < v2.queues[p].len() implies queue_entry_ok(
        v2,
        p,
        k,
    ) by {
        assert(queue_entry_ok(v1, p, k));
    }
    assert forall|i: int|
        0 <= i < MAX_TASK_NUM as int && v2.tasks[i] is Some && (
        #[trigger] v2.tasks[i])->Some_0.enqueued implies v2.queues[v2.tasks[i]->Some_0.prio].contains(
        i,
    ) by {
        assert(v1.tasks[i] is Some && v1.tasks[i]->Some_0.enqueued);
    }
}

/// A cooperative, priority-based executor: it owns the task table, the
/// per-priority ready queues with their set-bit index, the deferred-wake
/// mask and the current-task marker. Exactly one executor drives one
/// execution context; all state is owned by it exclusively.
pub struct Executor {
    ready_queue: Vec<RingBuffer<CoroutineId>>,
    prio_bitmap: BitMap64,
    coroutine_num: usize,
    current: Option<CoroutineId>,
    tasks: Vec<Option<Coroutine>>,
    delay_wake_cids: u64,
    cid_allocator: IndexAllocator,
}

impl View for Executor {
    type V = ExecView;

    closed spec fn view(&self) -> ExecView {
        ExecView {
            tasks: Seq::new(
                MAX_TASK_NUM as nat,
                |i: int|
                    match self.tasks@[i] {
                        Some(c) => Some(
                            TaskView {
                                prio: c.prio as int,
                                delivered: c.inner.delivered,
                                enqueued: c.inner.in_ready_queue,
                                yields_left: c.inner.computation.spec_yields_left(),
                            },
                        ),
                        None => None,
                    },
            ),
            queues: Seq::new(
                MAX_PRIO_NUM as nat,
                |p: int| self.ready_queue@[p]@.map_values(|c: CoroutineId| c.0 as int),
            ),
            mask: mask_word(self.delay_wake_cids),
            current: match self.current {
                Some(c) => Some(c.0 as int),
                None => None,
            },
        }
    }
}

impl Executor {
    /// The executor's full state invariant: the concrete structures are
    /// well-formed and coherent — the allocator marks exactly the ids
    /// that have tasks, every task record carries its own id, and a
    /// priority's bitmap bit is set exactly when its ready queue is
    /// non-empty — and the abstract view satisfies [`wf_view`].
    pub closed spec fn inv(&self) -> bool {
        &&& self.tasks@.len() == MAX_TASK_NUM as int
        &&& self.ready_queue@.len() == MAX_PRIO_NUM as int
        &&& forall|p: int|
            0 <= p < MAX_PRIO_NUM as int ==> (#[trigger] self.ready_queue@[p]).wf()
                && self.ready_queue@[p].capacity() == MAX_TASK_NUM as int
        &&& self.cid_allocator.capacity() == MAX_TASK_NUM as int
        &&& forall|i: int|
            0 <= i < MAX_TASK_NUM as int ==> (self.cid_allocator@[i] <==> (
            #[trigger] self.tasks@[i]) is Some)
        &&& forall|i: int|
            0 <= i < MAX_TASK_NUM as int && self.tasks@[i] is Some ==> (
            #[trigger] self.tasks@[i])->Some_0.cid.0 == i
        &&& forall|p: int|
            0 <= p < MAX_PRIO_NUM as int ==> ((#[trigger] self.prio_bitmap.bit(p)) <==> self.ready_queue@[p]@.len() > 0)
        &&& forall|p: int| MAX_PRIO_NUM as int <= p < 64 ==> !(#[trigger] self.prio_bitmap.bit(p))
        &&& self.coroutine_num as int == spec_live_count(self@.tasks, 0)
        &&& wf_view(self@)
    }

    /// The state invariant implies well-formedness of the abstract
    /// view; callers outside this module rely on this to reason about
    /// the view's shape.
    pub proof fn lemma_inv_implies_wf(&self)
        requires
            self.inv(),
        ensures
            wf_view(self@),
    {
    }

    /// Creates an executor with no tasks, empty queues and a clear mask.
    pub fn new() -> (r: Self)
        ensures
            r.inv(),
            forall|i: int| 0 <= i < MAX_TASK_NUM as int ==> r@.tasks[i] is None,
            forall|p: int| 0 <= p < MAX_PRIO_NUM as int ==> r@.queues[p].len() == 0,
            forall|i: int| 0 <= i < DELAY_WAKE_WIDTH as int ==> !r@.mask[i],
            r@.current is None,
    {
        let mut ready_queue: Vec<RingBuffer<CoroutineId>> = Vec::new();
        let mut p: usize = 0;
        while p < MAX_PRIO_NUM
            invariant
                p <= MAX_PRIO_NUM,
                ready_queue@.len() == p,
                forall|q: int|
                    0 <= q < p ==> (#[trigger] ready_queue@[q]).wf() && ready_queue@[q].capacity()
                        == MAX_TASK_NUM as int && ready_queue@[q]@.len() == 0,
            decreases MAX_PRIO_NUM - p,
        {
            ready_queue.push(RingBuffer::new(MAX_TASK_NUM, CoroutineId(0)));
            p = p + 1;
        }
        let mut tasks: Vec<Option<Coroutine>> = Vec::new();
        let mut i: usize = 0;
        while i < MAX_TASK_NUM
            invariant
                i <= MAX_TASK_NUM,
                tasks@.len() == i,
                forall|j: int| 0 <= j < i ==> (#[trigger] tasks@[j]) is None,
            decreases MAX_TASK_NUM - i,
        {
            tasks.push(None);
            i = i + 1;
        }
        let r = Executor {
            ready_queue,
            prio_bitmap: BitMap64::new(),
            coroutine_num: 0,
            current: None,
            tasks,
            delay_wake_cids: 0,
            cid_allocator: IndexAllocator::new(MAX_TASK_NUM),
        };
        proof {
            assert(forall|j: u64| j < 64 ==> (0u64 >> j) & 1u64 == 0u64) by (bit_vector);
            lemma_live_count_zero(r@.tasks, 0);
        }
        r
    }

    /// Resets the executor to its freshly created state.
    pub fn init(&mut self)
        ensures
            final(self).inv(),
            forall|i: int| 0 <= i < MAX_TASK_NUM as int ==> final(self)@.tasks[i] is None,
            forall|p: int| 0 <= p < MAX_PRIO_NUM as int ==> final(self)@.queues[p].len() == 0,
            forall|i: int| 0 <= i < DELAY_WAKE_WIDTH as int ==> !final(self)@.mask[i],
            final(self)@.current is None,
    {
        *self = Executor::new();
    }

    /// True when the task table holds no live task.
    pub fn is_empty(&self) -> (r: bool)
        requires
            self.inv(),
        ensures
            r == (forall|i: int| 0 <= i < MAX_TASK_NUM as int ==> self@.tasks[i] is None),
    {
        proof {
            lemma_live_count_zero(self@.tasks, 0);
        }
        self.coroutine_num == 0
    }

    /// The id set by the latest successful fetch, if any.
    pub fn current(&self) -> (r: Option<CoroutineId>)
        ensures
            match r {
                Some(c) => self@.current == Some(c.0 as int),
                None => self@.current is None,
            },
    {
        self.current
    }

    /// Spawns a task: allocates the lowest free id, stores the task
    /// record, enqueues the id in its priority's ready queue and marks
    /// the priority's bitmap bit. Fails only when every id is live,
    /// which callers must treat as backpressure.
    pub fn spawn(&mut self, computation: Computation, prio: usize) -> (r: Result<
        CoroutineId,
        RuntimeError,
    >)
        requires
            old(self).inv(),
            prio < MAX_PRIO_NUM,
        ensures
            final(self).inv(),
            match r {
                Ok(cid) => {
                    &&& cid.0 < MAX_TASK_NUM
                    &&& old(self)@.tasks[cid.0 as int] is None
                    &&& forall|j: int| 0 <= j < cid.0 as int ==> old(self)@.tasks[j] is Some
                    &&& final(self)@.tasks == old(self)@.tasks.update(
                        cid.0 as int,
                        Some(
                            TaskView {
                                prio: prio as int,
                                delivered: None,
                                enqueued: true,
                                yields_left: computation.spec_yields_left(),
                            },
                        ),
                    )
                    &&& final(self)@.queues == old(self)@.queues.update(
                        prio as int,
                        old(self)@.queues[prio as int].push(cid.0 as int),
                    )
                    &&& final(self)@.mask == old(self)@.mask
                    &&& final(self)@.current == old(self)@.current
                },
                Err(e) => {
                    &&& e == RuntimeError::ResourceExhausted
                    &&& forall|i: int| 0 <= i < MAX_TASK_NUM as int ==> old(self)@.tasks[i] is Some
                    &&& final(self)@ == old(self)@
                },
            },
    {
        let ghost v0 = self@;
        match self.cid_allocator.allocate() {
            None => {
                proof {
                    assert(self@ =~~= v0);
                }
                Err(RuntimeError::ResourceExhausted)
            },
            Some(index) => {
                let cid = CoroutineId(index as u32);
                let mut task = Coroutine::new(cid, computation, prio);
                task.inner.in_ready_queue = true;
                self.prio_bitmap.set(prio);
                proof {
                    // the fresh id is in no queue, so the queue has room
                    let q = v0.queues[prio as int];
                    assert forall|k: int| 0 <= k < q.len() implies 0 <= #[trigger] q[k]
                        < MAX_TASK_NUM as int && q[k] != index as int by {
                        assert(queue_entry_ok(v0, prio as int, k));
                    }
                    assert(!q.contains(index as int));
                    lemma_distinct_seq_missing(q, MAX_TASK_NUM as int, index as int);
                    assert(self.ready_queue@[prio as int]@.len() == q.len());
                }
                let queue = &mut self.ready_queue[prio];
                let push_result = queue.push(&cid);
                proof {
                    if push_result is Err {
                        assert(false);
                    }
                }
                self.tasks.set(index, Some(task));
                proof {
                    lemma_live_count_bounds(v0.tasks, 0);
                }
                self.coroutine_num = self.coroutine_num + 1;
                proof {
                    lemma_live_count_update(
                        v0.tasks,
                        index as int,
                        self@.tasks[index as int],
                        0,
                    );
                    let tv = TaskView {
                        prio: prio as int,
                        delivered: None,
                        enqueued: true,
                        yields_left: computation.spec_yields_left(),
                    };
                    assert(self@.tasks =~= v0.tasks.update(index as int, Some(tv)));
                    assert(self@.queues =~~= v0.queues.update(
                        prio as int,
                        v0.queues[prio as int].push(index as int),
                    ));
                    assert(self@.mask =~= v0.mask);
                    self.lemma_spawn_inv(v0, index as int, prio as int, tv);
                }
                Ok(cid)
            },
        }
    }

    /// Wakes a task: looks up its fixed priority, appends the id to that
    /// priority's ready queue and sets the priority's bitmap bit. The
    /// wake is idempotent — an id that is unknown, out of range or
    /// already enqueued leaves the executor unchanged.
    pub fn wake(&mut self, cid: &CoroutineId)
        requires
            old(self).inv(),
        ensures
            final(self).inv(),
            final(self)@ == wake_spec(old(self)@, cid.0 as int),
    {
        let ghost v0 = self@;
        let idx = cid.0 as usize;
        if idx >= MAX_TASK_NUM {
            return ;
        }
        let slot = self.tasks[idx];
        match slot {
            None => {
                proof {
                    assert(v0.tasks[idx as int] is None);
                }
            },
            Some(task) => {
                if !task.inner.in_ready_queue {
                    let prio = task.prio;
                    proof {
                        assert(v0.tasks[idx as int]->Some_0.prio == prio as int);
                        assert(0 <= prio < MAX_PRIO_NUM) by {
                            assert(v0.tasks[idx as int] is Some);
                        }
                        // an id that is not enqueued sits in no queue
                        let q = v0.queues[prio as int];
                        assert forall|k: int| 0 <= k < q.len() implies 0 <= #[trigger] q[k]
                            < MAX_TASK_NUM as int && q[k] != idx as int by {
                            assert(queue_entry_ok(v0, prio as int, k));
                        }
                        assert(!q.contains(idx as int));
                        lemma_distinct_seq_missing(q, MAX_TASK_NUM as int, idx as int);
                        assert(self.ready_queue@[prio as int]@.len() == q.len());
                    }
                    self.prio_bitmap.set(prio);
                    let queue = &mut self.ready_queue[prio];
                    let push_result = queue.push(cid);
                    proof {
                        if push_result is Err {
                            assert(false);
                        }
                    }
                    let mut task2 = task;
                    task2.inner.in_ready_queue = true;
                    self.tasks.set(idx, Some(task2));
                    proof {
                        lemma_live_count_update(v0.tasks, idx as int, self@.tasks[idx as int], 0);
                        let t = v0.tasks[idx as int]->Some_0;
                        let tv = TaskView {
                            prio: t.prio,
                            delivered: t.delivered,
                            enqueued: true,
                            yields_left: t.yields_left,
                        };
                        assert(self@.tasks =~= v0.tasks.update(idx as int, Some(tv)));
                        assert(self@.queues =~~= v0.queues.update(
                            prio as int,
                            v0.queues[prio as int].push(idx as int),
                        ));
                        assert(self@.mask =~= v0.mask);
                        assert(self@ =~~= wake_spec(v0, cid.0 as int));
                        lemma_wake_spec_wf(v0, cid.0 as int);
                    }
                }
            },
        }
    }

    /// Records a wake request from interrupt context: sets the id's bit
    /// in the deferred-wake mask without touching any queue. An id
    /// outside the mask's width is rejected as `CapacityExceeded`; an id
    /// with no live task is rejected as `Fatal` rather than letting a
    /// stale bit resurrect a recycled id.
    pub fn delay_wake(&mut self, cid: &CoroutineId) -> (r: Result<(), RuntimeError>)
        requires
            old(self).inv(),
        ensures
            final(self).inv(),
            match r {
                Ok(()) => {
                    &&& cid.0 < DELAY_WAKE_WIDTH
                    &&& old(self)@.tasks[cid.0 as int] is Some
                    &&& final(self)@.mask == old(self)@.mask.update(cid.0 as int, true)
                    &&& final(self)@.tasks == old(self)@.tasks
                    &&& final(self)@.queues == old(self)@.queues
                    &&& final(self)@.current == old(self)@.current
                },
                Err(e) => {
                    &&& final(self)@ == old(self)@
                    &&& e == (if cid.0 >= DELAY_WAKE_WIDTH {
                        RuntimeError::CapacityExceeded
                    } else {
                        RuntimeError::Fatal
                    })
                    &&& cid.0 < DELAY_WAKE_WIDTH ==> old(self)@.tasks[cid.0 as int] is None
                },
            },
    {
        let ghost v0 = self@;
        if cid.0 >= DELAY_WAKE_WIDTH as u32 {
            return Err(RuntimeError::CapacityExceeded);
        }
        let idx = cid.0 as usize;
        if self.tasks[idx].is_none() {
            proof {
                assert(v0.tasks[idx as int] is None);
            }
            return Err(RuntimeError::Fatal);
        }
        let bits = self.delay_wake_cids;
        let c = cid.0 as u64;
        self.delay_wake_cids = bits | (1u64 << c);
        proof {
            assert(forall|j: u64|
                j < 64 && c < 64 ==> ((bits | (1u64 << c)) >> j) & 1u64 == (if j == c {
                    1u64
                } else {
                    (bits >> j) & 1u64
                })) by (bit_vector);
            assert(forall|j: u64|
                j < 64 ==> ((bits >> j) & 1u64 == 1u64 || (bits >> j) & 1u64 == 0u64))
                by (bit_vector);
            assert forall|i: int| 0 <= i < 64 implies self@.mask[i] == v0.mask.update(
                cid.0 as int,
                true,
            )[i] by {
                let j = i as u64;
                assert(j < 64 && c < 64 ==> ((bits | (1u64 << c)) >> j) & 1u64 == (if j == c {
                    1u64
                } else {
                    (bits >> j) & 1u64
                })) by (bit_vector);
                assert((bits >> j) & 1u64 == 1u64 || (bits >> j) & 1u64 == 0u64) by (bit_vector);
                assert(((bits | (1u64 << c)) >> j) & 1u64 == 1u64 || ((bits | (1u64 << c)) >> j)
                    & 1u64 == 0u64) by (bit_vector);
            }
            assert(self@.mask =~= v0.mask.update(cid.0 as int, true));
            assert(self@.tasks =~= v0.tasks);
            assert(self@.queues =~~= v0.queues);
            assert(v0.tasks[cid.0 as int] is Some);
            lemma_wf_view_mask_change(v0, self@);
        }
        Ok(())
    }

    /// Drains the deferred-wake mask: swaps it to zero and performs an
    /// ordinary wake for every id whose bit was set, in ascending order.
    fn actual_wake(&mut self)
        requires
            old(self).inv(),
        ensures
            final(self).inv(),
            final(self)@ == drained(old(self)@),
    {
        let ghost v0 = self@;
        let bits = self.delay_wake_cids;
        self.delay_wake_cids = 0;
        proof {
            assert(forall|j: u64| j < 64 ==> (0u64 >> j) & 1u64 == 0u64) by (bit_vector);
            assert(self@.mask =~= Seq::new(64, |i: int| false));
            assert(self@ =~~= cleared_mask(v0));
            assert(v0.mask =~= mask_word(bits));
            assert(self@.tasks == v0.tasks);
            lemma_wf_view_mask_change(v0, self@);
        }
        let mut i: usize = 0;
        while i < DELAY_WAKE_WIDTH
            invariant
                self.inv(),
                i <= DELAY_WAKE_WIDTH,
                v0.mask == mask_word(bits),
                drain_bits(cleared_mask(v0), v0.mask, 0) == drain_bits(self@, v0.mask, i as int),
            decreases DELAY_WAKE_WIDTH - i,
        {
            let ghost v_iter = self@;
            if (bits >> (i as u64)) & 1u64 == 1u64 {
                proof {
                    assert(v0.mask[i as int]);
                }
                let c = CoroutineId(i as u32);
                self.wake(&c);
                proof {
                    assert(self@ == wake_spec(v_iter, i as int));
                    assert(drain_bits(v_iter, v0.mask, i as int) == drain_bits(
                        self@,
                        v0.mask,
                        i as int + 1,
                    ));
                }
            } else {
                proof {
                    assert(!v0.mask[i as int]);
                    assert(drain_bits(v_iter, v0.mask, i as int) == drain_bits(
                        self@,
                        v0.mask,
                        i as int + 1,
                    ));
                }
            }
            i = i + 1;
        }
    }

    /// Fetches the next task to run: first drains the deferred-wake mask
    /// (every set bit becomes an ordinary wake), then pops one id from
    /// the lowest-index non-empty priority queue, clears that priority's
    /// bitmap bit if its queue ran empty, and makes the id current.
    ///
    /// The contract carries the two scheduling laws directly: a fetched
    /// task leaves no task of a more urgent priority ready (priority
    /// ordering), and every id whose mask bit was set going in is ready
    /// when the fetch returns — or is the fetched id itself
    /// (deferred-wake drain).
    pub fn fetch(&mut self) -> (r: Option<CoroutineId>)
        requires
            old(self).inv(),
        ensures
            final(self).inv(),
            final(self)@ == fetch_spec(old(self)@).0,
            match r {
                Some(c) => fetch_spec(old(self)@).1 == Some(c.0 as int),
                None => fetch_spec(old(self)@).1 is None,
            },
            r is None ==> forall|p: int|
                0 <= p < MAX_PRIO_NUM as int ==> final(self)@.queues[p].len() == 0,
            r is Some ==> {
                let id = r->Some_0.0 as int;
                &&& 0 <= id < MAX_TASK_NUM as int
                &&& final(self)@.current == Some(id)
                &&& final(self)@.tasks[id] is Some
                &&& !final(self)@.tasks[id]->Some_0.enqueued
                &&& forall|p: int|
                    0 <= p < final(self)@.tasks[id]->Some_0.prio ==> final(self)@.queues[p].len()
                        == 0
            },
            forall|i: int|
                0 <= i < DELAY_WAKE_WIDTH as int && old(self)@.mask[i] && old(self)@.tasks[i] is Some
                    ==> final(self)@.tasks[i] is Some && (final(self)@.tasks[i]->Some_0.enqueued
                    || r == Some(CoroutineId(i as u32))),
    {
        let ghost v0 = self@;
        self.actual_wake();
        let ghost d = self@;
        proof {
            lemma_drain_bits_props(cleared_mask(v0), v0.mask, 0);
        }
        let prio = self.prio_bitmap.find_first_one();
        if prio == 64 {
            proof {
                assert forall|p: int| 0 <= p < MAX_PRIO_NUM as int implies d.queues[p].len()
                    == 0 by {
                    assert(!self.prio_bitmap.bit(p));
                }
                lemma_first_ready_from(d, 0, MAX_PRIO_NUM as int);
            }
            return None;
        }
        proof {
            assert(self.prio_bitmap.bit(prio as int));
            assert(prio < MAX_PRIO_NUM) by {
                if prio >= MAX_PRIO_NUM {
                    assert(!self.prio_bitmap.bit(prio as int));
                }
            }
            assert(d.queues[prio as int].len() > 0);
            assert forall|q: int| 0 <= q < prio as int implies d.queues[q].len() == 0 by {
                assert(!self.prio_bitmap.bit(q));
            }
            lemma_first_ready_from(d, 0, prio as int);
            assert(queue_entry_ok(d, prio as int, 0));
        }
        let queue = &mut self.ready_queue[prio];
        let popped = queue.pop();
        let cid = popped.unwrap();
        let idx = cid.0 as usize;
        proof {
            assert(d.queues[prio as int][0] == idx as int);
            assert(d.tasks[idx as int] is Some);
            assert(self.tasks@[idx as int] is Some);
        }
        let mut task = self.tasks[idx].unwrap();
        task.inner.in_ready_queue = false;
        self.tasks.set(idx, Some(task));
        self.current = Some(cid);
        let now_empty = self.ready_queue[prio].empty();
        if now_empty {
            self.prio_bitmap.clear(prio);
        }
        proof {
            let t = d.tasks[idx as int]->Some_0;
            let tv = TaskView {
                prio: t.prio,
                delivered: t.delivered,
                enqueued: false,
                yields_left: t.yields_left,
            };
            lemma_live_count_update(d.tasks, idx as int, Some(tv), 0);
            assert(self@.tasks =~= d.tasks.update(idx as int, Some(tv)));
            assert(self@.queues =~~= d.queues.update(
                prio as int,
                d.queues[prio as int].drop_first(),
            ));
            assert(self@.mask =~= d.mask);
            assert(self@ =~~= select_spec(d).0);
            self.lemma_dequeue_inv(d, idx as int, prio as int);
        }
        Some(cid)
    }

    /// Runs until no task is ready: repeatedly fetches the next ready
    /// task and resumes its computation exactly once. A task that
    /// suspends is left parked — requeueing it is its waker's
    /// responsibility; a task that finishes is removed and its id
    /// released. Returns when every ready queue is empty and the
    /// deferred-wake mask has been drained; when every live task was
    /// ready and about to finish, the table is empty afterwards.
    pub fn run_until_blocked(&mut self)
        requires
            old(self).inv(),
        ensures
            final(self).inv(),
            forall|p: int| 0 <= p < MAX_PRIO_NUM as int ==> final(self)@.queues[p].len() == 0,
            forall|i: int| 0 <= i < DELAY_WAKE_WIDTH as int ==> !final(self)@.mask[i],
            all_ready_and_finishing(old(self)@) ==> forall|i: int|
                0 <= i < MAX_TASK_NUM as int ==> final(self)@.tasks[i] is None,
    {
        loop
            invariant
                self.inv(),
                all_ready_and_finishing(old(self)@) ==> all_ready_and_finishing(self@),
            decreases popcount_from(self@.mask, 0) + ready_count_from(self@, 0),
        {
            let ghost v_pre = self@;
            proof {
                lemma_popcount_nonneg(v_pre.mask, 0);
                lemma_ready_count_nonneg(v_pre, 0);
            }
            match self.fetch() {
                None => {
                    proof {
                        lemma_drain_bits_props(cleared_mask(v_pre), v_pre.mask, 0);
                        assert(self@.mask =~= cleared_mask(v_pre).mask);
                        if all_ready_and_finishing(old(self)@) {
                            assert forall|i: int|
                                0 <= i < MAX_TASK_NUM as int implies self@.tasks[i] is None by {
                                if self@.tasks[i] is Some {
                                    assert(v_pre.tasks[i] is Some);
                                    assert(v_pre.tasks[i]->Some_0.enqueued);
                                    assert(self@.tasks[i]->Some_0.enqueued);
                                    let tp = self@.tasks[i]->Some_0.prio;
                                    assert(self@.queues[tp].contains(i));
                                }
                            }
                        }
                    }
                    return ;
                },
                Some(cid) => {
                    let ghost d = drained(v_pre);
                    let ghost v_fetched = self@;
                    proof {
                        lemma_drain_bits_props(cleared_mask(v_pre), v_pre.mask, 0);
                        lemma_drained_wf(v_pre);
                        let p = first_ready_prio(d, 0);
                        lemma_first_ready_range(d, 0);
                        assert(p < MAX_PRIO_NUM as int);
                        assert(queue_entry_ok(d, p, 0));
                        assert(d.tasks[cid.0 as int] is Some);
                        lemma_ready_count_queues_only(v_pre, cleared_mask(v_pre), 0);
                        lemma_drain_ready_bound(cleared_mask(v_pre), v_pre.mask, 0);
                        lemma_ready_count_parts(d, v_fetched, p, 0);
                        lemma_popcount_all_false(v_fetched.mask, 0);
                        lemma_popcount_nonneg(v_pre.mask, 0);
                    }
                    let idx = cid.0 as usize;
                    let mut task = self.tasks[idx].unwrap();
                    let poll = task.execute();
                    self.tasks.set(idx, Some(task));
                    proof {
                        let t = v_fetched.tasks[idx as int]->Some_0;
                        let t2 = TaskView {
                            prio: t.prio,
                            delivered: t.delivered,
                            enqueued: t.enqueued,
                            yields_left: self@.tasks[idx as int]->Some_0.yields_left,
                        };
                        assert(self@.tasks =~= v_fetched.tasks.update(idx as int, Some(t2)));
                        assert(self@.queues =~~= v_fetched.queues);
                        assert(self@.mask =~= v_fetched.mask);
                        lemma_live_count_update(v_fetched.tasks, idx as int, Some(t2), 0);
                        lemma_wf_view_task_state_change(v_fetched, self@, idx as int, t2);
                        lemma_ready_count_queues_only(v_fetched, self@, 0);
                    }
                    let ghost v_polled = self@;
                    match poll {
                        PollState::Ready => {
                            self.remove_task(cid);
                            proof {
                                lemma_ready_count_queues_only(v_polled, self@, 0);
                                if cid.0 < DELAY_WAKE_WIDTH {
                                    lemma_popcount_update_clear(v_polled.mask, cid.0 as int, 0);
                                }
                            }
                        },
                        PollState::Pending => {},
                    }
                    proof {
                        lemma_popcount_nonneg(self@.mask, 0);
                        lemma_ready_count_nonneg(self@, 0);
                        assert(popcount_from(v_fetched.mask, 0) == 0);
                        assert(ready_count_from(v_fetched, 0) == ready_count_from(d, 0) - 1);
                        assert(ready_count_from(self@, 0) == ready_count_from(v_fetched, 0));
                        assert(popcount_from(self@.mask, 0) == 0);
                        assert(popcount_from(self@.mask, 0) + ready_count_from(self@, 0)
                            < popcount_from(v_pre.mask, 0) + ready_count_from(v_pre, 0));
                        if all_ready_and_finishing(old(self)@) {
                            // every live task had no suspensions left, so the
                            // fetched one finished and was removed
                            assert(v_pre.tasks[idx as int] is Some);
                            assert(v_pre.tasks[idx as int]->Some_0.yields_left == 0);
                            assert(v_fetched.tasks[idx as int]->Some_0.yields_left == 0);
                            assert(poll == PollState::Ready);
                            assert forall|i: int|
                                0 <= i < MAX_TASK_NUM as int && self@.tasks[i] is Some implies ((
                            #[trigger] self@.tasks[i])->Some_0.enqueued
                                && self@.tasks[i]->Some_0.yields_left == 0) by {
                                assert(i != idx as int);
                                assert(v_pre.tasks[i] is Some);
                                assert(v_fetched.tasks[i] == d.tasks[i]);
                                assert(v_pre.tasks[i]->Some_0.enqueued);
                                assert(d.tasks[i]->Some_0.enqueued);
                            }
                        }
                    }
                },
            }
        }
    }

    /// Resumes the computation of one live task exactly once and
    /// reports whether it suspended or finished. The driver loop calls
    /// this on each fetched task; a `Ready` result means the task can
    /// be removed. An id without a live task is rejected as `Fatal`.
    pub fn execute_task(&mut self, cid: &CoroutineId) -> (r: Result<PollState, RuntimeError>)
        requires
            old(self).inv(),
        ensures
            final(self).inv(),
            final(self)@.queues == old(self)@.queues,
            final(self)@.mask == old(self)@.mask,
            final(self)@.current == old(self)@.current,
            match r {
                Ok(p) => {
                    &&& cid.0 < MAX_TASK_NUM
                    &&& old(self)@.tasks[cid.0 as int] is Some
                    &&& ({
                        let t = old(self)@.tasks[cid.0 as int]->Some_0;
                        let yields = if t.yields_left > 0 {
                            t.yields_left - 1
                        } else {
                            0int
                        };
                        &&& p == (if t.yields_left > 0 {
                            PollState::Pending
                        } else {
                            PollState::Ready
                        })
                        &&& final(self)@.tasks == old(self)@.tasks.update(
                            cid.0 as int,
                            Some(
                                TaskView {
                                    prio: t.prio,
                                    delivered: t.delivered,
                                    enqueued: t.enqueued,
                                    yields_left: yields,
                                },
                            ),
                        )
                    })
                },
                Err(e) => {
                    &&& e == RuntimeError::Fatal
                    &&& final(self)@ == old(self)@
                    &&& (cid.0 >= MAX_TASK_NUM || old(self)@.tasks[cid.0 as int] is None)
                },
            },
    {
        let ghost v0 = self@;
        let idx = cid.0 as usize;
        if idx >= MAX_TASK_NUM {
            return Err(RuntimeError::Fatal);
        }
        match self.tasks[idx] {
            None => {
                proof {
                    assert(v0.tasks[idx as int] is None);
                }
                Err(RuntimeError::Fatal)
            },
            Some(task) => {
                let mut task2 = task;
                let poll = task2.execute();
                self.tasks.set(idx, Some(task2));
                proof {
                    let t = v0.tasks[idx as int]->Some_0;
                    task.inner.computation.lemma_yields_nonneg();
                    assert(t.yields_left == task.inner.computation.spec_yields_left());
                    let t2 = TaskView {
                        prio: t.prio,
                        delivered: t.delivered,
                        enqueued: t.enqueued,
                        yields_left: task2.inner.computation.spec_yields_left(),
                    };
                    assert(self@.tasks[idx as int] == Some(t2));
                    assert(t2.yields_left == (if t.yields_left > 0 {
                        t.yields_left - 1
                    } else {
                        0int
                    }));
                    assert(poll == (if t.yields_left > 0 {
                        PollState::Pending
                    } else {
                        PollState::Ready
                    }));
                    assert(self@.tasks =~= v0.tasks.update(idx as int, Some(t2)));
                    assert(self@.queues =~~= v0.queues);
                    assert(self@.mask =~= v0.mask);
                    lemma_live_count_update(v0.tasks, idx as int, Some(t2), 0);
                    lemma_wf_view_task_state_change(v0, self@, idx as int, t2);
                }
                Ok(poll)
            },
        }
    }

    /// The top-level drive loop: calls `run_until_blocked` until the
    /// task table is empty. A parked task that is never woken again
    /// would keep such a loop spinning forever, so this operation asks
    /// the caller for the one state in which completion is certain:
    /// every live task ready and finishing on its next resumption.
    pub fn run_until_complete(&mut self)
        requires
            old(self).inv(),
            all_ready_and_finishing(old(self)@),
        ensures
            final(self).inv(),
            forall|i: int| 0 <= i < MAX_TASK_NUM as int ==> final(self)@.tasks[i] is None,
    {
        while !self.is_empty()
            invariant
                self.inv(),
                all_ready_and_finishing(self@),
            decreases spec_live_count(self@.tasks, 0),
        {
            proof {
                lemma_live_count_bounds(self@.tasks, 0);
            }
            self.run_until_blocked();
            proof {
                lemma_live_count_zero(self@.tasks, 0);
            }
        }
    }

    /// True when some ready task has a more urgent (numerically lower)
    /// priority than the currently running task, after draining the
    /// deferred-wake mask. The running task may use this to requeue
    /// itself voluntarily.
    pub fn switch_possible(&mut self) -> (r: bool)
        requires
            old(self).inv(),
            old(self)@.current is Some,
            0 <= old(self)@.current->Some_0 < MAX_TASK_NUM as int,
            old(self)@.tasks[old(self)@.current->Some_0] is Some,
        ensures
            final(self).inv(),
            final(self)@ == drained(old(self)@),
            r == (first_ready_prio(final(self)@, 0) < final(self)@.tasks[old(
                self,
            )@.current->Some_0]->Some_0.prio),
    {
        let ghost v0 = self@;
        self.actual_wake();
        let ghost d = self@;
        proof {
            lemma_drain_bits_props(cleared_mask(v0), v0.mask, 0);
        }
        let cur = self.current.unwrap();
        let idx = cur.0 as usize;
        let task = self.tasks[idx].unwrap();
        let prio = self.prio_bitmap.find_first_one();
        proof {
            if prio == 64 {
                assert forall|p: int| 0 <= p < MAX_PRIO_NUM as int implies d.queues[p].len()
                    == 0 by {
                    assert(!self.prio_bitmap.bit(p));
                }
                lemma_first_ready_from(d, 0, MAX_PRIO_NUM as int);
            } else {
                assert(self.prio_bitmap.bit(prio as int));
                assert(prio < MAX_PRIO_NUM) by {
                    if prio >= MAX_PRIO_NUM {
                        assert(!self.prio_bitmap.bit(prio as int));
                    }
                }
                assert(d.queues[prio as int].len() > 0);
                assert forall|q: int| 0 <= q < prio as int implies d.queues[q].len() == 0 by {
                    assert(!self.prio_bitmap.bit(q));
                }
                lemma_first_ready_from(d, 0, prio as int);
            }
        }
        prio < task.prio
    }

    /// The number of ids currently sitting in the ready queues.
    pub fn get_ready_num(&self) -> (r: usize)
        requires
            self.inv(),
        ensures
            r as int == ready_count_from(self@, 0),
    {
        let mut total: usize = 0;
        let mut p: usize = 0;
        while p < MAX_PRIO_NUM
            invariant
                self.inv(),
                p <= MAX_PRIO_NUM,
                total as int <= p as int * MAX_TASK_NUM as int,
                total as int + ready_count_from(self@, p as int) == ready_count_from(self@, 0),
            decreases MAX_PRIO_NUM - p,
        {
            proof {
                self.ready_queue@[p as int].lemma_len_le_capacity();
            }
            let sz = self.ready_queue[p].size();
            total = total + sz;
            p = p + 1;
        }
        total
    }

    /// Delivers a payload to the task the record is addressed to, and
    /// only to it: the record is stored in that task's one-slot payload
    /// store and the task is woken. An id without a live task is
    /// rejected as `Fatal`; no other task's slot is ever touched.
    pub fn wake_with_value(&mut self, cid: &CoroutineId, item: &IPCItem) -> (r: Result<
        (),
        RuntimeError,
    >)
        requires
            old(self).inv(),
        ensures
            final(self).inv(),
            match r {
                Ok(()) => {
                    &&& cid.0 < MAX_TASK_NUM
                    &&& old(self)@.tasks[cid.0 as int] is Some
                    &&& final(self)@ == deliver_spec(old(self)@, cid.0 as int, *item)
                },
                Err(e) => {
                    &&& e == RuntimeError::Fatal
                    &&& final(self)@ == old(self)@
                    &&& (cid.0 >= MAX_TASK_NUM || old(self)@.tasks[cid.0 as int] is None)
                },
            },
    {
        let ghost v0 = self@;
        let idx = cid.0 as usize;
        if idx >= MAX_TASK_NUM {
            return Err(RuntimeError::Fatal);
        }
        match self.tasks[idx] {
            None => {
                proof {
                    assert(v0.tasks[idx as int] is None);
                }
                Err(RuntimeError::Fatal)
            },
            Some(task) => {
                let mut task2 = task;
                task2.inner.delivered = Some(*item);
                self.tasks.set(idx, Some(task2));
                proof {
                    let t = v0.tasks[idx as int]->Some_0;
                    let t2 = TaskView {
                        prio: t.prio,
                        delivered: Some(*item),
                        enqueued: t.enqueued,
                        yields_left: t.yields_left,
                    };
                    assert(self@.tasks =~= v0.tasks.update(idx as int, Some(t2)));
                    assert(self@.queues =~~= v0.queues);
                    assert(self@.mask =~= v0.mask);
                    lemma_live_count_update(v0.tasks, idx as int, Some(t2), 0);
                    lemma_wf_view_task_state_change(v0, self@, idx as int, t2);
                }
                self.wake(cid);
                proof {
                    assert(self@ =~~= deliver_spec(v0, cid.0 as int, *item));
                }
                Ok(())
            },
        }
    }

    /// Reads and clears the task's one-slot delivered payload; the
    /// composition "await the yield point, then read and clear this
    /// slot" is what a suspended task runs when it is resumed.
    pub fn take_immediate_value(&mut self, cid: &CoroutineId) -> (r: Option<IPCItem>)
        requires
            old(self).inv(),
            cid.0 < MAX_TASK_NUM,
            old(self)@.tasks[cid.0 as int] is Some,
        ensures
            final(self).inv(),
            r == old(self)@.tasks[cid.0 as int]->Some_0.delivered,
            final(self)@.tasks == old(self)@.tasks.update(
                cid.0 as int,
                Some(
                    TaskView {
                        prio: old(self)@.tasks[cid.0 as int]->Some_0.prio,
                        delivered: None,
                        enqueued: old(self)@.tasks[cid.0 as int]->Some_0.enqueued,
                        yields_left: old(self)@.tasks[cid.0 as int]->Some_0.yields_left,
                    },
                ),
            ),
            final(self)@.queues == old(self)@.queues,
            final(self)@.mask == old(self)@.mask,
            final(self)@.current == old(self)@.current,
    {
        let ghost v0 = self@;
        let idx = cid.0 as usize;
        let mut task = self.tasks[idx].unwrap();
        let r = task.inner.delivered;
        task.inner.delivered = None;
        self.tasks.set(idx, Some(task));
        proof {
            let t = v0.tasks[idx as int]->Some_0;
            let t2 = TaskView {
                prio: t.prio,
                delivered: None,
                enqueued: t.enqueued,
                yields_left: t.yields_left,
            };
            assert(self@.tasks =~= v0.tasks.update(idx as int, Some(t2)));
            assert(self@.queues =~~= v0.queues);
            assert(self@.mask =~= v0.mask);
            lemma_live_count_update(v0.tasks, idx as int, Some(t2), 0);
            lemma_wf_view_task_state_change(v0, self@, idx as int, t2);
        }
        r
    }

    /// Invariant restoration after popping head `id` from queue `prio`
    /// and clearing its enqueued flag.
    proof fn lemma_dequeue_inv(&self, d: ExecView, id: int, prio: int)
        requires
            wf_view(d),
            0 <= prio < MAX_PRIO_NUM as int,
            d.queues[prio].len() > 0,
            d.queues[prio][0] == id,
            0 <= id < MAX_TASK_NUM as int,
            d.tasks[id] is Some,
            self@.tasks == d.tasks.update(
                id,
                Some(
                    TaskView {
                        prio: d.tasks[id]->Some_0.prio,
                        delivered: d.tasks[id]->Some_0.delivered,
                        enqueued: false,
                        yields_left: d.tasks[id]->Some_0.yields_left,
                    },
                ),
            ),
            self@.queues == d.queues.update(prio, d.queues[prio].drop_first()),
            self@.mask == d.mask,
        ensures
            wf_view(self@),
    {
        let v = self@;
        assert(queue_entry_ok(d, prio, 0));
        assert forall|i: int|
            0 <= i < MAX_TASK_NUM as int && v.tasks[i] is Some implies 0 <= (
        #[trigger] v.tasks[i])->Some_0.prio < MAX_PRIO_NUM as int by {
            assert(d.tasks[i] is Some);
        }
        assert forall|p: int, k: int|
            0 <= p < MAX_PRIO_NUM as int && 0 <= k < v.queues[p].len() implies queue_entry_ok(
            v,
            p,
            k,
        ) by {
            if p == prio {
                assert(queue_entry_ok(d, p, k + 1));
                assert(d.queues[p][k + 1] != id) by {
                    assert(d.queues[p].no_duplicates());
                }
            } else {
                assert(queue_entry_ok(d, p, k));
                assert(d.queues[p][k] != id) by {
                    if d.queues[p][k] == id {
                        assert(d.tasks[id]->Some_0.prio == p);
                        assert(d.tasks[id]->Some_0.prio == prio);
                    }
                }
            }
        }
        assert forall|p: int| 0 <= p < MAX_PRIO_NUM as int implies (
        #[trigger] v.queues[p]).no_duplicates() by {
            if p == prio {
                assert forall|m: int, n: int|
                    0 <= m < v.queues[p].len() && 0 <= n < v.queues[p].len() && m != n implies
                    v.queues[p][m] != v.queues[p][n] by {
                    assert(d.queues[p][m + 1] != d.queues[p][n + 1]);
                }
            }
        }
        assert forall|i: int|
            0 <= i < MAX_TASK_NUM as int && v.tasks[i] is Some && (
            #[trigger] v.tasks[i])->Some_0.enqueued implies v.queues[v.tasks[i]->Some_0.prio].contains(
            i,
        ) by {
            assert(i != id);
            assert(d.tasks[i] is Some && d.tasks[i]->Some_0.enqueued);
            let tp = d.tasks[i]->Some_0.prio;
            assert(d.queues[tp].contains(i));
            let k = choose|k: int| 0 <= k < d.queues[tp].len() && d.queues[tp][k] == i;
            if tp == prio {
                assert(k != 0) by {
                    assert(d.queues[prio][0] == id);
                }
                assert(v.queues[tp][k - 1] == i);
            } else {
                assert(v.queues[tp][k] == i);
            }
        }
        assert forall|i: int|
            0 <= i < DELAY_WAKE_WIDTH as int && v.mask[i] implies v.tasks[i] is Some by {
            assert(d.tasks[i] is Some);
        }
    }

    /// Removes a finished task: clears its table slot, its deferred-wake
    /// bit and its payload slot, and releases its id back to the
    /// allocator — only then may `allocate` hand the id out again. The
    /// task must not sit in a ready queue, which is guaranteed for the
    /// task the latest fetch returned.
    pub fn remove_task(&mut self, cid: CoroutineId)
        requires
            old(self).inv(),
            cid.0 < MAX_TASK_NUM,
            old(self)@.tasks[cid.0 as int] is Some,
            !old(self)@.tasks[cid.0 as int]->Some_0.enqueued,
        ensures
            final(self).inv(),
            final(self)@.tasks == old(self)@.tasks.update(cid.0 as int, None),
            final(self)@.queues == old(self)@.queues,
            final(self)@.current == old(self)@.current,
            final(self)@.mask == (if cid.0 < DELAY_WAKE_WIDTH {
                old(self)@.mask.update(cid.0 as int, false)
            } else {
                old(self)@.mask
            }),
    {
        let ghost v0 = self@;
        let idx = cid.0 as usize;
        self.tasks.set(idx, None);
        proof {
            lemma_live_count_bounds(v0.tasks, 0);
        }
        self.coroutine_num = self.coroutine_num - 1;
        if cid.0 < DELAY_WAKE_WIDTH as u32 {
            let bits = self.delay_wake_cids;
            let c = cid.0 as u64;
            self.delay_wake_cids = bits & !(1u64 << c);
            proof {
                assert forall|i: int| 0 <= i < 64 implies self@.mask[i] == v0.mask.update(
                    cid.0 as int,
                    false,
                )[i] by {
                    let j = i as u64;
                    assert(j < 64 && c < 64 ==> ((bits & !(1u64 << c)) >> j) & 1u64 == (if j
                        == c {
                        0u64
                    } else {
                        (bits >> j) & 1u64
                    })) by (bit_vector);
                    assert((bits >> j) & 1u64 == 1u64 || (bits >> j) & 1u64 == 0u64)
                        by (bit_vector);
                    assert(((bits & !(1u64 << c)) >> j) & 1u64 == 1u64 || ((bits & !(1u64 << c))
                        >> j) & 1u64 == 0u64) by (bit_vector);
                }
                assert(self@.mask =~= v0.mask.update(cid.0 as int, false));
            }
        }
        self.cid_allocator.release(idx);
        proof {
            lemma_live_count_update(v0.tasks, idx as int, None, 0);
            assert(self@.tasks =~= v0.tasks.update(idx as int, None));
            assert(self@.queues =~~= v0.queues);
            if cid.0 >= DELAY_WAKE_WIDTH as u32 {
                assert(self@.mask =~= v0.mask);
            }
            let v = self@;
            assert forall|i: int|
                0 <= i < MAX_TASK_NUM as int && v.tasks[i] is Some implies 0 <= (
            #[trigger] v.tasks[i])->Some_0.prio < MAX_PRIO_NUM as int by {
                assert(v0.tasks[i] is Some);
            }
            assert forall|p: int, k: int|
                0 <= p < MAX_PRIO_NUM as int && 0 <= k < v.queues[p].len() implies queue_entry_ok(
                v,
                p,
                k,
            ) by {
                assert(queue_entry_ok(v0, p, k));
                assert(v0.queues[p][k] != idx as int) by {
                    if v0.queues[p][k] == idx as int {
                        assert(v0.tasks[idx as int]->Some_0.enqueued);
                    }
                }
            }
            assert forall|i: int|
                0 <= i < MAX_TASK_NUM as int && v.tasks[i] is Some && (
                #[trigger] v.tasks[i])->Some_0.enqueued implies v.queues[v.tasks[i]->Some_0.prio].contains(
                i,
            ) by {
                assert(v0.tasks[i] is Some && v0.tasks[i]->Some_0.enqueued);
                assert(v0.queues[v0.tasks[i]->Some_0.prio].contains(i));
            }
            assert forall|i: int|
                0 <= i < DELAY_WAKE_WIDTH as int && v.mask[i] implies v.tasks[i] is Some by {
                assert(v0.mask[i] && i != idx as int);
                assert(v0.tasks[i] is Some);
            }
        }
    }

    /// Invariant restoration after a spawn, shared by the proof above.
    proof fn lemma_spawn_inv(&self, v0: ExecView, id: int, prio: int, tv: TaskView)
        requires
            wf_view(v0),
            0 <= id < MAX_TASK_NUM as int,
            0 <= prio < MAX_PRIO_NUM as int,
            v0.tasks[id] is None,
            tv == (TaskView { prio, delivered: None, enqueued: true, yields_left: tv.yields_left }),
            self@.tasks == v0.tasks.update(id, Some(tv)),
            self@.queues == v0.queues.update(prio, v0.queues[prio].push(id)),
            self@.mask == v0.mask,
        ensures
            wf_view(self@),
    {
        let v = self@;
        assert forall|i: int|
            0 <= i < MAX_TASK_NUM as int && v.tasks[i] is Some implies 0 <= (
        #[trigger] v.tasks[i])->Some_0.prio < MAX_PRIO_NUM as int by {
            if i != id {
                assert(v0.tasks[i] is Some);
            }
        }
        assert forall|i: int|
            0 <= i < DELAY_WAKE_WIDTH as int && v.mask[i] implies v.tasks[i] is Some by {
            assert(v0.tasks[i] is Some);
        }
        assert forall|p: int, k: int|
            0 <= p < MAX_PRIO_NUM as int && 0 <= k < v.queues[p].len() implies queue_entry_ok(
            v,
            p,
            k,
        ) by {
            if p == prio && k == v.queues[p].len() - 1 {
                assert(v.queues[p][k] == id);
            } else {
                assert(queue_entry_ok(v0, p, k));
                assert(v0.queues[p][k] != id);
            }
        }
        assert forall|p: int| 0 <= p < MAX_PRIO_NUM as int implies (
        #[trigger] v.queues[p]).no_duplicates() by {
            if p == prio {
                assert(!v0.queues[prio].contains(id)) by {
                    if v0.queues[prio].contains(id) {
                        let k = choose|k: int|
                            0 <= k < v0.queues[prio].len() && v0.queues[prio][k] == id;
                        assert(queue_entry_ok(v0, prio, k));
                    }
                }
                assert(v.queues[prio].no_duplicates());
            }
        }
        assert forall|i: int|
            0 <= i < MAX_TASK_NUM as int && v.tasks[i] is Some && (
            #[trigger] v.tasks[i])->Some_0.enqueued implies v.queues[v.tasks[i]->Some_0.prio].contains(
            i,
        ) by {
            if i == id {
                assert(v.queues[prio][v.queues[prio].len() - 1] == id);
            } else {
                let tp = v0.tasks[i]->Some_0.prio;
                assert(v0.queues[tp].contains(i));
                let k = choose|k: int| 0 <= k < v0.queues[tp].len() && v0.queues[tp][k] == i;
                assert(v.queues[tp][k] == i);
            }
        }
    }
}

} // verus!
