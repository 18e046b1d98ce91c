//! A cooperative, priority-based task runtime paired with a
//! shared-memory mailbox transport.
//!
//! The crate is organised around two cores: the [`Executor`], which owns
//! the task table, the per-priority ready queues and the deferred-wake
//! mask, and the [`NewBuffer`] mailbox, which carries fixed-format
//! message records between two execution contexts and coalesces doorbell
//! notifications.
//!
//! Every operation carries a contract; the key scheduling and transport
//! properties (priority order of dispatch, id lifecycle, targeted reply
//! delivery, doorbell coalescing, full-queue safety, deferred-wake
//! drain) are stated and proved in the modules that own them.
//!
//! The runtime state is an explicit context object constructed once per
//! execution unit and passed to every operation; the free functions
//! below mirror the operation set on such a context.

pub mod bitmap;
pub mod coroutine;
pub mod error;
pub mod executor;
pub mod index_allocator;
pub mod message;
pub mod message_info;
pub mod new_buffer;
pub mod notifier;
pub mod ring_buffer;
pub mod transport;

pub use bitmap::{BitMap, BitMap4096, BitMap64};
pub use coroutine::{Computation, Coroutine, CoroutineId, CoroutineInner, PollState, YieldHelper};
pub use error::RuntimeError;
pub use executor::{ExecView, Executor, TaskView, DELAY_WAKE_WIDTH, MAX_PRIO_NUM, MAX_TASK_NUM};
pub use index_allocator::IndexAllocator;
pub use message::{MessageBuilder, MessageDecoder, MessageType};
pub use message_info::{AsyncErrorLabel, AsyncMessageLabel};
pub use new_buffer::{IPCItem, ItemsQueue, MailboxView, NewBuffer, MAX_IPC_MSG_LEN, MAX_ITEM_NUM};
pub use notifier::{register_recv_cid, uintr_handler, wake_recv_coroutine, UIntVec, WakeTable,
    MAX_UINT_VEC};
pub use ring_buffer::RingBuffer;
pub use transport::{process_one_reply, submit_call, wake_with_value, ReplyStep};

use vstd::prelude::*;

verus! {

/// Spawns a computation at the default priority level 1.
pub fn coroutine_spawn(exec: &mut Executor, computation: Computation) -> (r: Result<
    CoroutineId,
    RuntimeError,
>)
    requires
        old(exec).inv(),
    ensures
        final(exec).inv(),
        match r {
            Ok(cid) => {
                &&& cid.0 < MAX_TASK_NUM
                &&& old(exec)@.tasks[cid.0 as int] is None
                &&& final(exec)@.tasks[cid.0 as int] == Some(
                    TaskView {
                        prio: 1,
                        delivered: None,
                        enqueued: true,
                        yields_left: computation.spec_yields_left(),
                    },
                )
            },
            Err(e) => {
                &&& e == RuntimeError::ResourceExhausted
                &&& forall|i: int| 0 <= i < MAX_TASK_NUM as int ==> old(exec)@.tasks[i] is Some
            },
        },
{
    proof {
        exec.lemma_inv_implies_wf();
    }
    exec.spawn(computation, 1)
}

/// Spawns a computation at the given priority level.
pub fn coroutine_spawn_with_prio(
    exec: &mut Executor,
    computation: Computation,
    prio: usize,
) -> (r: Result<CoroutineId, RuntimeError>)
    requires
        old(exec).inv(),
        prio < MAX_PRIO_NUM,
    ensures
        final(exec).inv(),
        match r {
            Ok(cid) => {
                &&& cid.0 < MAX_TASK_NUM
                &&& old(exec)@.tasks[cid.0 as int] is None
                &&& final(exec)@.tasks[cid.0 as int] == Some(
                    TaskView {
                        prio: prio as int,
                        delivered: None,
                        enqueued: true,
                        yields_left: computation.spec_yields_left(),
                    },
                )
            },
            Err(e) => {
                &&& e == RuntimeError::ResourceExhausted
                &&& forall|i: int| 0 <= i < MAX_TASK_NUM as int ==> old(exec)@.tasks[i] is Some
            },
        },
{
    proof {
        exec.lemma_inv_implies_wf();
    }
    exec.spawn(computation, prio)
}

/// True when a ready task outranks the currently running one.
pub fn coroutine_possible_switch(exec: &mut Executor) -> (r: bool)
    requires
        old(exec).inv(),
        old(exec)@.current is Some,
        0 <= old(exec)@.current->Some_0 < MAX_TASK_NUM as int,
        old(exec)@.tasks[old(exec)@.current->Some_0] is Some,
    ensures
        final(exec).inv(),
        final(exec)@ == executor::drained(old(exec)@),
        r == (executor::first_ready_prio(final(exec)@, 0) < final(exec)@.tasks[old(
            exec,
        )@.current->Some_0]->Some_0.prio),
{
    exec.switch_possible()
}

/// Records a wake from interrupt context in the deferred-wake mask.
pub fn coroutine_delay_wake(exec: &mut Executor, cid: &CoroutineId) -> (r: Result<
    (),
    RuntimeError,
>)
    requires
        old(exec).inv(),
    ensures
        final(exec).inv(),
        match r {
            Ok(()) => {
                &&& cid.0 < DELAY_WAKE_WIDTH
                &&& old(exec)@.tasks[cid.0 as int] is Some
                &&& final(exec)@.mask == old(exec)@.mask.update(cid.0 as int, true)
                &&& final(exec)@.tasks == old(exec)@.tasks
                &&& final(exec)@.queues == old(exec)@.queues
            },
            Err(e) => {
                &&& final(exec)@ == old(exec)@
                &&& e == (if cid.0 >= DELAY_WAKE_WIDTH {
                    RuntimeError::CapacityExceeded
                } else {
                    RuntimeError::Fatal
                })
                &&& cid.0 < DELAY_WAKE_WIDTH ==> old(exec)@.tasks[cid.0 as int] is None
            },
        },
{
    exec.delay_wake(cid)
}

/// Enqueues a parked task in its priority's ready queue (idempotent).
pub fn coroutine_wake(exec: &mut Executor, cid: &CoroutineId)
    requires
        old(exec).inv(),
    ensures
        final(exec).inv(),
        final(exec)@ == executor::wake_spec(old(exec)@, cid.0 as int),
{
    exec.wake(cid)
}

/// The id of the task the latest fetch selected.
pub fn coroutine_get_current(exec: &Executor) -> (r: CoroutineId)
    requires
        exec@.current is Some,
    ensures
        exec@.current == Some(r.0 as int),
{
    exec.current().unwrap()
}

/// The number of ids currently in the ready queues.
pub fn get_ready_num(exec: &Executor) -> (r: usize)
    requires
        exec.inv(),
    ensures
        r as int == executor::ready_count_from(exec@, 0),
{
    exec.get_ready_num()
}

/// Resumes ready tasks until none is left ready.
pub fn coroutine_run_until_blocked(exec: &mut Executor)
    requires
        old(exec).inv(),
    ensures
        final(exec).inv(),
        forall|p: int| 0 <= p < MAX_PRIO_NUM as int ==> final(exec)@.queues[p].len() == 0,
        forall|i: int| 0 <= i < DELAY_WAKE_WIDTH as int ==> !final(exec)@.mask[i],
{
    exec.run_until_blocked()
}

/// True when the task table holds no live task.
pub fn coroutine_is_empty(exec: &Executor) -> (r: bool)
    requires
        exec.inv(),
    ensures
        r == (forall|i: int| 0 <= i < MAX_TASK_NUM as int ==> exec@.tasks[i] is None),
{
    exec.is_empty()
}

/// Drives the executor until the task table is empty.
pub fn coroutine_run_until_complete(exec: &mut Executor)
    requires
        old(exec).inv(),
        executor::all_ready_and_finishing(old(exec)@),
    ensures
        final(exec).inv(),
        forall|i: int| 0 <= i < MAX_TASK_NUM as int ==> final(exec)@.tasks[i] is None,
{
    exec.run_until_complete()
}

} // verus!
