use vstd::prelude::*;

use crate::coroutine::CoroutineId;
use crate::error::RuntimeError;
use crate::executor::{ExecView, Executor, DELAY_WAKE_WIDTH};

verus! {

/// The number of notification vectors a receiver context can register.
pub const MAX_UINT_VEC: usize = 64;

/// A notification vector index, as delivered by the platform doorbell.
pub type UIntVec = usize;

/// Maps the notification vectors of the platform doorbell to the tasks
/// that asked to be woken when their vector fires. The handler that
/// runs in interrupt context reads this table and records deferred
/// wakes; it never touches the ready queues directly.
pub struct WakeTable {
    entries: Vec<Option<CoroutineId>>,
}

impl View for WakeTable {
    type V = Seq<Option<CoroutineId>>;

    closed spec fn view(&self) -> Seq<Option<CoroutineId>> {
        self.entries@
    }
}

/// Whether one of the fired vectors in `irqs` is registered for task id
/// `j` of a live task: exactly the wakes the handler must record.
pub open spec fn wake_requested(table: Seq<Option<CoroutineId>>, irqs: u64, v: ExecView, j: int) -> bool {
    exists|i: int|
        0 <= i < MAX_UINT_VEC as int && (irqs >> (i as u64)) & 1u64 == 1u64 && table[i] is Some
            && (#[trigger] table[i])->Some_0.0 as int == j && 0 <= j < DELAY_WAKE_WIDTH as int
            && v.tasks[j] is Some
}

/// Like [`wake_requested`], but only counting vectors below `n`.
pub open spec fn wake_requested_below(
    table: Seq<Option<CoroutineId>>,
    irqs: u64,
    v: ExecView,
    j: int,
    n: int,
) -> bool {
    exists|i: int|
        0 <= i < n && (irqs >> (i as u64)) & 1u64 == 1u64 && table[i] is Some && (
        #[trigger] table[i])->Some_0.0 as int == j && 0 <= j < DELAY_WAKE_WIDTH as int
            && v.tasks[j] is Some
}

impl WakeTable {
    /// Creates a table with every vector free.
    pub fn new() -> (r: Self)
        ensures
            r@.len() == MAX_UINT_VEC,
            forall|i: int| 0 <= i < MAX_UINT_VEC as int ==> r@[i] is None,
    {
        let mut entries: Vec<Option<CoroutineId>> = Vec::new();
        let mut i: usize = 0;
        while i < MAX_UINT_VEC
            invariant
                i <= MAX_UINT_VEC,
                entries@.len() == i,
                forall|j: int| 0 <= j < i ==> (#[trigger] entries@[j]) is None,
            decreases MAX_UINT_VEC - i,
        {
            entries.push(None);
            i = i + 1;
        }
        WakeTable { entries }
    }
}

/// Registers `cid` as the task to wake when a fresh notification vector
/// fires, returning that vector: the lowest free one. `None` reports
/// that every vector is taken — backpressure, not a fault.
pub fn register_recv_cid(table: &mut WakeTable, cid: &CoroutineId) -> (r: Option<UIntVec>)
    requires
        old(table)@.len() == MAX_UINT_VEC,
    ensures
        final(table)@.len() == MAX_UINT_VEC,
        match r {
            Some(vec) => {
                &&& vec < MAX_UINT_VEC
                &&& old(table)@[vec as int] is None
                &&& forall|j: int| 0 <= j < vec as int ==> old(table)@[j] is Some
                &&& final(table)@ == old(table)@.update(vec as int, Some(*cid))
            },
            None => {
                &&& forall|j: int| 0 <= j < MAX_UINT_VEC as int ==> old(table)@[j] is Some
                &&& final(table)@ == old(table)@
            },
        },
{
    let mut i: usize = 0;
    while i < MAX_UINT_VEC
        invariant
            i <= MAX_UINT_VEC,
            table@.len() == MAX_UINT_VEC,
            table@ == old(table)@,
            forall|j: int| 0 <= j < i ==> table@[j] is Some,
        decreases MAX_UINT_VEC - i,
    {
        if table.entries[i].is_none() {
            table.entries.set(i, Some(*cid));
            return Some(i);
        }
        i = i + 1;
    }
    None
}

/// Records a deferred wake for the task registered on vector `vec`: the
/// interrupt-context half of a doorbell arrival. An unregistered vector
/// is a fault; capacity and liveness errors come from `delay_wake`.
pub fn wake_recv_coroutine(exec: &mut Executor, table: &WakeTable, vec: usize) -> (r: Result<
    (),
    RuntimeError,
>)
    requires
        old(exec).inv(),
        table@.len() == MAX_UINT_VEC,
    ensures
        final(exec).inv(),
        match r {
            Ok(()) => {
                &&& vec < MAX_UINT_VEC
                &&& table@[vec as int] is Some
                &&& ({
                    let cid = table@[vec as int]->Some_0;
                    &&& cid.0 < DELAY_WAKE_WIDTH
                    &&& old(exec)@.tasks[cid.0 as int] is Some
                    &&& final(exec)@.mask == old(exec)@.mask.update(cid.0 as int, true)
                })
                &&& final(exec)@.tasks == old(exec)@.tasks
                &&& final(exec)@.queues == old(exec)@.queues
                &&& final(exec)@.current == old(exec)@.current
            },
            Err(_) => {
                &&& final(exec)@ == old(exec)@
                &&& (vec >= MAX_UINT_VEC || table@[vec as int] is None || ({
                    let cid = table@[vec as int]->Some_0;
                    cid.0 >= DELAY_WAKE_WIDTH || old(exec)@.tasks[cid.0 as int] is None
                }))
            },
        },
{
    if vec >= MAX_UINT_VEC {
        return Err(RuntimeError::Fatal);
    }
    match table.entries[vec] {
        Some(cid) => exec.delay_wake(&cid),
        None => Err(RuntimeError::Fatal),
    }
}

/// The deferred-wake mask after the handler has examined vectors
/// `0..k` of the fired-vector word `irqs`: starting from the mask in
/// `v`, every examined vector that fired and is registered for a live
/// task within the mask's width contributes that task's bit.
pub open spec fn recorded_wakes(
    table: Seq<Option<CoroutineId>>,
    irqs: u64,
    v: ExecView,
    k: int,
) -> Seq<bool>
    decreases k,
{
    if k <= 0 {
        v.mask
    } else {
        let m = recorded_wakes(table, irqs, v, k - 1);
        let w = k - 1;
        if (irqs >> (w as u64)) & 1u64 == 1u64 && table[w] is Some && table[w]->Some_0.0
            < DELAY_WAKE_WIDTH as u32 && v.tasks[table[w]->Some_0.0 as int] is Some {
            m.update(table[w]->Some_0.0 as int, true)
        } else {
            m
        }
    }
}

/// Pointwise reading of [`recorded_wakes`]: a bit ends up set exactly
/// when it was set before or some examined vector requested it.
pub proof fn lemma_recorded_wakes_char(
    table: Seq<Option<CoroutineId>>,
    irqs: u64,
    v: ExecView,
    k: int,
    j: int,
)
    requires
        v.mask.len() == DELAY_WAKE_WIDTH as int,
        0 <= j < DELAY_WAKE_WIDTH as int,
        0 <= k,
    ensures
        recorded_wakes(table, irqs, v, k).len() == DELAY_WAKE_WIDTH as int,
        recorded_wakes(table, irqs, v, k)[j] == (v.mask[j] || wake_requested_below(
            table,
            irqs,
            v,
            j,
            k,
        )),
    decreases k,
{
    if k <= 0 {
        assert(!wake_requested_below(table, irqs, v, j, k));
    } else {
        lemma_recorded_wakes_char(table, irqs, v, k - 1, j);
        let m = recorded_wakes(table, irqs, v, k - 1);
        let w = k - 1;
        let fires = (irqs >> (w as u64)) & 1u64 == 1u64 && table[w] is Some && table[w]->Some_0.0
            < DELAY_WAKE_WIDTH as u32 && v.tasks[table[w]->Some_0.0 as int] is Some;
        if wake_requested_below(table, irqs, v, j, k - 1) {
            let x = choose|x: int|
                0 <= x < k - 1 && (irqs >> (x as u64)) & 1u64 == 1u64 && table[x] is Some && (
                #[trigger] table[x])->Some_0.0 as int == j && 0 <= j < DELAY_WAKE_WIDTH as int
                    && v.tasks[j] is Some;
            assert(wake_requested_below(table, irqs, v, j, k));
            assert(recorded_wakes(table, irqs, v, k)[j]);
        } else if fires && table[w]->Some_0.0 as int == j {
            assert(recorded_wakes(table, irqs, v, k)[j]);
            assert(wake_requested_below(table, irqs, v, j, k));
        } else {
            assert(recorded_wakes(table, irqs, v, k)[j] == m[j]);
            assert(!wake_requested_below(table, irqs, v, j, k)) by {
                if wake_requested_below(table, irqs, v, j, k) {
                    let x = choose|x: int|
                        0 <= x < k && (irqs >> (x as u64)) & 1u64 == 1u64 && table[x] is Some && (
                        #[trigger] table[x])->Some_0.0 as int == j && 0 <= j
                            < DELAY_WAKE_WIDTH as int && v.tasks[j] is Some;
                    assert(x == w);
                    assert(fires);
                }
            }
        }
    }
}

/// The doorbell handler: runs in a restricted interrupt-like context
/// when a cross-context signal arrives. Its only permitted work is to
/// read the fired-vector word and record a deferred wake for each set
/// bit — the task table, ready queues and current marker are left
/// untouched, and stale or unregistered vectors are skipped. Returns
/// the word to write back: zero, all vectors handled.
pub fn uintr_handler(exec: &mut Executor, table: &WakeTable, irqs: u64) -> (r: usize)
    requires
        old(exec).inv(),
        table@.len() == MAX_UINT_VEC,
    ensures
        final(exec).inv(),
        r == 0,
        final(exec)@.tasks == old(exec)@.tasks,
        final(exec)@.queues == old(exec)@.queues,
        final(exec)@.current == old(exec)@.current,
        final(exec)@.mask == recorded_wakes(table@, irqs, old(exec)@, MAX_UINT_VEC as int),
        forall|j: int|
            0 <= j < DELAY_WAKE_WIDTH as int ==> final(exec)@.mask[j] == (old(exec)@.mask[j]
                || wake_requested(table@, irqs, old(exec)@, j)),
{
    let ghost v0 = exec@;
    proof {
        exec.lemma_inv_implies_wf();
    }
    let mut i: usize = 0;
    while i < MAX_UINT_VEC
        invariant
            exec.inv(),
            i <= MAX_UINT_VEC,
            table@.len() == MAX_UINT_VEC,
            v0.mask.len() == DELAY_WAKE_WIDTH as int,
            exec@.tasks == v0.tasks,
            exec@.queues == v0.queues,
            exec@.current == v0.current,
            exec@.mask == recorded_wakes(table@, irqs, v0, i as int),
        decreases MAX_UINT_VEC - i,
    {
        let ghost v_iter = exec@;
        let ghost i0 = i as int;
        let bit_set = (irqs >> (i as u64)) & 1u64 == 1u64;
        if bit_set {
            let result = wake_recv_coroutine(exec, table, i);
            proof {
                let fires = table@[i0] is Some && table@[i0]->Some_0.0 < DELAY_WAKE_WIDTH as u32
                    && v0.tasks[table@[i0]->Some_0.0 as int] is Some;
                if fires {
                    assert(result is Ok);
                    assert(exec@.mask == v_iter.mask.update(table@[i0]->Some_0.0 as int, true));
                    assert(exec@.mask == recorded_wakes(table@, irqs, v0, i0 + 1));
                } else {
                    assert(result is Err);
                    assert(exec@.mask == recorded_wakes(table@, irqs, v0, i0 + 1));
                }
            }
        } else {
            proof {
                assert(exec@.mask == recorded_wakes(table@, irqs, v0, i0 + 1));
            }
        }
        i = i + 1;
    }
    proof {
        assert forall|j: int|
            0 <= j < DELAY_WAKE_WIDTH as int implies exec@.mask[j] == (v0.mask[j]
            || wake_requested(table@, irqs, v0, j)) by {
            lemma_recorded_wakes_char(table@, irqs, v0, MAX_UINT_VEC as int, j);
            if wake_requested(table@, irqs, v0, j) {
                let w = choose|w: int|
                    0 <= w < MAX_UINT_VEC as int && (irqs >> (w as u64)) & 1u64 == 1u64 && table@[w] is Some
                        && (#[trigger] table@[w])->Some_0.0 as int == j && 0 <= j
                        < DELAY_WAKE_WIDTH as int && v0.tasks[j] is Some;
                assert(wake_requested_below(table@, irqs, v0, j, MAX_UINT_VEC as int));
            }
            if wake_requested_below(table@, irqs, v0, j, MAX_UINT_VEC as int) {
                let w = choose|w: int|
                    0 <= w < MAX_UINT_VEC as int && (irqs >> (w as u64)) & 1u64 == 1u64 && table@[w] is Some
                        && (#[trigger] table@[w])->Some_0.0 as int == j && 0 <= j
                        < DELAY_WAKE_WIDTH as int && v0.tasks[j] is Some;
                assert(wake_requested(table@, irqs, v0, j));
            }
        }
    }
    0
}

} // verus!
