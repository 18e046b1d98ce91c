use vstd::prelude::*;

use crate::coroutine::CoroutineId;
use crate::error::RuntimeError;
use crate::executor::{deliver_spec, Executor, MAX_TASK_NUM};
use crate::new_buffer::{spec_send_request, IPCItem, NewBuffer};

verus! {

/// What one step of the reply drain loop did.
#[derive(Clone, Copy, Debug, PartialEq, Eq, Structural)]
pub enum ReplyStep {
    /// A reply was taken and delivered to the task it is tagged with.
    Delivered(CoroutineId),
    /// A reply was taken but its origin id has no live task; the record
    /// was dropped.
    Stale(CoroutineId),
    /// The reply queue is empty; the notify-owed flag has been cleared
    /// and the drain task should now suspend until the next doorbell.
    WouldBlock,
}

/// Stores a delivered payload for the task a record is tagged with and
/// wakes that task — never any other. This is the delivery half of the
/// mailbox reply protocol.
pub fn wake_with_value(exec: &mut Executor, cid: &CoroutineId, item: &IPCItem) -> (r: Result<
    (),
    RuntimeError,
>)
    requires
        old(exec).inv(),
    ensures
        final(exec).inv(),
        match r {
            Ok(()) => {
                &&& cid.0 < MAX_TASK_NUM
                &&& old(exec)@.tasks[cid.0 as int] is Some
                &&& final(exec)@ == deliver_spec(old(exec)@, cid.0 as int, *item)
            },
            Err(e) => {
                &&& e == RuntimeError::Fatal
                &&& final(exec)@ == old(exec)@
                &&& (cid.0 >= MAX_TASK_NUM || old(exec)@.tasks[cid.0 as int] is None)
            },
        },
{
    exec.wake_with_value(cid, item)
}

/// The caller half of a mailbox call, up to the suspension: builds the
/// request record for the calling task and enqueues it, reporting
/// whether the doorbell toward the peer must be fired. The caller then
/// awaits the yield point and reads its delivered payload back with
/// [`Executor::take_immediate_value`].
pub fn submit_call(buffer: &mut NewBuffer, cid: &CoroutineId, msg: u32) -> (r: Result<
    bool,
    RuntimeError,
>)
    requires
        old(buffer).wf(),
    ensures
        final(buffer).wf(),
        final(buffer).req_capacity() == old(buffer).req_capacity(),
        final(buffer).res_capacity() == old(buffer).res_capacity(),
        match r {
            Ok(fire) => {
                &&& ({
                    let item = final(buffer)@.req[final(buffer)@.req.len() - 1];
                    &&& item.cid == *cid
                    &&& item.msg_info == msg
                    &&& spec_send_request(old(buffer)@, item, old(buffer).req_capacity()) == (
                    final(buffer)@,
                    true,
                    fire,
                    )
                })
                &&& fire == !old(buffer)@.req_flag
            },
            Err(e) => {
                &&& e == RuntimeError::ResourceExhausted
                &&& old(buffer)@.req.len() == old(buffer).req_capacity()
                &&& final(buffer)@ == old(buffer)@
            },
        },
{
    let item = IPCItem::from(*cid, msg);
    buffer.send_request(&item)
}

/// One step of the reply drain loop that runs in the caller's context:
/// takes the oldest pending reply and delivers it to exactly the task
/// it is tagged with, or clears the reply notify-owed flag when the
/// queue is empty so the loop can suspend without losing a doorbell.
pub fn process_one_reply(exec: &mut Executor, buffer: &mut NewBuffer) -> (r: ReplyStep)
    requires
        old(exec).inv(),
        old(buffer).wf(),
    ensures
        final(exec).inv(),
        final(buffer).wf(),
        final(buffer).req_capacity() == old(buffer).req_capacity(),
        final(buffer).res_capacity() == old(buffer).res_capacity(),
        final(buffer)@.req == old(buffer)@.req,
        final(buffer)@.req_flag == old(buffer)@.req_flag,
        match r {
            ReplyStep::Delivered(cid) => {
                &&& old(buffer)@.res.len() > 0
                &&& cid == old(buffer)@.res[0].cid
                &&& final(buffer)@.res == old(buffer)@.res.drop_first()
                &&& final(buffer)@.res_flag == old(buffer)@.res_flag
                &&& old(exec)@.tasks[cid.0 as int] is Some
                &&& final(exec)@ == deliver_spec(old(exec)@, cid.0 as int, old(buffer)@.res[0])
            },
            ReplyStep::Stale(cid) => {
                &&& old(buffer)@.res.len() > 0
                &&& cid == old(buffer)@.res[0].cid
                &&& final(buffer)@.res == old(buffer)@.res.drop_first()
                &&& final(buffer)@.res_flag == old(buffer)@.res_flag
                &&& (cid.0 >= MAX_TASK_NUM || old(exec)@.tasks[cid.0 as int] is None)
                &&& final(exec)@ == old(exec)@
            },
            ReplyStep::WouldBlock => {
                &&& old(buffer)@.res.len() == 0
                &&& final(buffer)@.res == old(buffer)@.res
                &&& !final(buffer)@.res_flag
                &&& final(exec)@ == old(exec)@
            },
        },
{
    match buffer.take_reply() {
        Some(item) => {
            let cid = item.cid;
            match exec.wake_with_value(&cid, &item) {
                Ok(()) => ReplyStep::Delivered(cid),
                Err(_) => ReplyStep::Stale(cid),
            }
        },
        None => ReplyStep::WouldBlock,
    }
}

} // verus!
