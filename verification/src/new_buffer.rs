use vstd::prelude::*;

use crate::coroutine::CoroutineId;
use crate::error::RuntimeError;
use crate::ring_buffer::RingBuffer;

verus! {

/// Number of fixed-width extension words a message record carries.
pub const MAX_IPC_MSG_LEN: usize = 16;

/// Default capacity of each mailbox queue.
pub const MAX_ITEM_NUM: usize = 4096;

/// A fixed-size wire record: the origin task's id, an operation tag and a
/// small fixed array of payload words. Records are immutable once built
/// and are copied by value through the mailbox queues, so the layout can
/// sit at fixed offsets in a block shared across execution contexts.
#[derive(Clone, Copy, Debug)]
pub struct IPCItem {
    /// The id of the task the record belongs to (the caller for a request,
    /// the addressee for a reply).
    pub cid: CoroutineId,
    /// The operation tag.
    pub msg_info: u32,
    /// Fixed extension words of the payload.
    pub extend_msg: [u16; 16],
}

impl IPCItem {
    /// An all-zero record.
    pub fn new() -> (r: Self)
        ensures
            r.cid.0 == 0,
            r.msg_info == 0,
            forall|i: int| 0 <= i < 16 ==> r.extend_msg@[i] == 0,
    {
        IPCItem { cid: CoroutineId(0), msg_info: 0, extend_msg: [0u16; 16] }
    }

    /// A record tagged with `cid` and `msg`, with a zeroed payload.
    pub fn from(cid: CoroutineId, msg: u32) -> (r: Self)
        ensures
            r.cid == cid,
            r.msg_info == msg,
            forall|i: int| 0 <= i < 16 ==> r.extend_msg@[i] == 0,
    {
        IPCItem { cid, msg_info: msg, extend_msg: [0u16; 16] }
    }
}

impl Default for IPCItem {
    /// Same as [`IPCItem::new`]: an all-zero record.
    fn default() -> (r: Self)
        ensures
            r.cid.0 == 0,
            r.msg_info == 0,
            forall|i: int| 0 <= i < 16 ==> r.extend_msg@[i] == 0,
    {
        IPCItem::new()
    }
}

/// One direction of a mailbox: a bounded queue of message records.
///
/// The queue is touched by two independent execution contexts in the
/// deployed system, so every access must be serialized; here the exclusive
/// `&mut` receiver is that serialization discipline, established by
/// construction rather than by a runtime lock.
pub struct ItemsQueue {
    buffer: RingBuffer<IPCItem>,
}

impl View for ItemsQueue {
    type V = Seq<IPCItem>;

    closed spec fn view(&self) -> Seq<IPCItem> {
        self.buffer@
    }
}

impl ItemsQueue {
    /// Structural well-formedness of the underlying buffer.
    pub closed spec fn wf(&self) -> bool {
        self.buffer.wf()
    }

    /// The fixed number of records the queue can hold.
    pub closed spec fn capacity(&self) -> int {
        self.buffer.capacity()
    }

    /// Creates an empty queue holding at most `capacity` records.
    pub fn new(capacity: usize) -> (r: Self)
        requires
            capacity < usize::MAX,
        ensures
            r.wf(),
            r.capacity() == capacity,
            r@ == Seq::<IPCItem>::empty(),
    {
        ItemsQueue { buffer: RingBuffer::new(capacity, IPCItem::new()) }
    }

    /// Appends a record, or reports exhaustion on a full queue without
    /// changing its contents.
    pub fn write_free_item(&mut self, item: &IPCItem) -> (r: Result<(), RuntimeError>)
        requires
            old(self).wf(),
        ensures
            final(self).wf(),
            final(self).capacity() == old(self).capacity(),
            match r {
                Ok(()) => {
                    &&& old(self)@.len() < old(self).capacity()
                    &&& final(self)@ == old(self)@.push(*item)
                },
                Err(e) => {
                    &&& e == RuntimeError::ResourceExhausted
                    &&& old(self)@.len() == old(self).capacity()
                    &&& final(self)@ == old(self)@
                },
            },
    {
        match self.buffer.push(item) {
            Ok(()) => Ok(()),
            Err(()) => Err(RuntimeError::ResourceExhausted),
        }
    }

    /// Removes and returns the oldest record, or `None` when the queue is
    /// empty.
    pub fn get_first_item(&mut self) -> (r: Option<IPCItem>)
        requires
            old(self).wf(),
        ensures
            final(self).wf(),
            final(self).capacity() == old(self).capacity(),
            match r {
                Some(item) => {
                    &&& old(self)@.len() > 0
                    &&& item == old(self)@[0]
                    &&& final(self)@ == old(self)@.drop_first()
                },
                None => {
                    &&& old(self)@.len() == 0
                    &&& final(self)@ == old(self)@
                },
            },
    {
        self.buffer.pop()
    }
}

/// The abstract state of a mailbox: the two queue contents and the two
/// notification-owed flags.
pub ghost struct MailboxView {
    /// Pending request records, oldest first.
    pub req: Seq<IPCItem>,
    /// Pending reply records, oldest first.
    pub res: Seq<IPCItem>,
    /// True while the request side owes no further doorbell: the peer has
    /// been notified and has not drained the queue empty since.
    pub req_flag: bool,
    /// Same as `req_flag`, for the reply direction.
    pub res_flag: bool,
}

/// A mailbox connecting two execution contexts: a request queue and a
/// reply queue, each with a "notification owed" flag used to coalesce
/// doorbells. Each side writes one queue and one flag and reads the
/// other pair.
pub struct NewBuffer {
    recv_req_status: bool,
    recv_reply_status: bool,
    req_items: ItemsQueue,
    res_items: ItemsQueue,
}

impl View for NewBuffer {
    type V = MailboxView;

    closed spec fn view(&self) -> MailboxView {
        MailboxView {
            req: self.req_items@,
            res: self.res_items@,
            req_flag: self.recv_req_status,
            res_flag: self.recv_reply_status,
        }
    }
}

/// The effect of enqueueing one request into a mailbox of request
/// capacity `cap`: the resulting state, whether the record was accepted,
/// and whether a doorbell must be fired. A doorbell fires exactly when
/// the record is accepted while the notify-owed flag is still clear; the
/// flag transition makes bursts of requests collapse into one doorbell.
pub open spec fn spec_send_request(m: MailboxView, item: IPCItem, cap: int) -> (MailboxView, bool, bool) {
    if m.req.len() < cap {
        (
            MailboxView { req: m.req.push(item), res: m.res, req_flag: true, res_flag: m.res_flag },
            true,
            !m.req_flag,
        )
    } else {
        (m, false, false)
    }
}

/// The number of doorbells fired when the records of `items` are enqueued
/// in order, with no drain by the peer in between.
pub open spec fn spec_doorbell_count(m: MailboxView, items: Seq<IPCItem>, cap: int) -> int
    decreases items.len(),
{
    if items.len() == 0 {
        0
    } else {
        let (m1, _accepted, fired) = spec_send_request(m, items[0], cap);
        (if fired {
            1int
        } else {
            0int
        }) + spec_doorbell_count(m1, items.drop_first(), cap)
    }
}

/// Doorbell coalescing: however many requests are enqueued before the
/// peer drains the queue, at most one doorbell is fired — none at all if
/// a notification was already owed at the start.
pub proof fn lemma_doorbell_coalescing(m: MailboxView, items: Seq<IPCItem>, cap: int)
    ensures
        spec_doorbell_count(m, items, cap) <= if m.req_flag {
            0int
        } else {
            1int
        },
        m.req_flag ==> spec_doorbell_count(m, items, cap) == 0,
    decreases items.len(),
{
    if items.len() > 0 {
        let (m1, _accepted, fired) = spec_send_request(m, items[0], cap);
        lemma_doorbell_coalescing(m1, items.drop_first(), cap);
    }
}

impl NewBuffer {
    /// Structural well-formedness of the two queues.
    pub closed spec fn wf(&self) -> bool {
        &&& self.req_items.wf()
        &&& self.res_items.wf()
    }

    /// The fixed capacity of the request queue.
    pub closed spec fn req_capacity(&self) -> int {
        self.req_items.capacity()
    }

    /// The fixed capacity of the reply queue.
    pub closed spec fn res_capacity(&self) -> int {
        self.res_items.capacity()
    }

    /// Creates a mailbox whose two queues each hold at most `capacity`
    /// records, with both notify-owed flags clear.
    pub fn new(capacity: usize) -> (r: Self)
        requires
            capacity < usize::MAX,
        ensures
            r.wf(),
            r.req_capacity() == capacity,
            r.res_capacity() == capacity,
            r@.req == Seq::<IPCItem>::empty(),
            r@.res == Seq::<IPCItem>::empty(),
            !r@.req_flag,
            !r@.res_flag,
    {
        NewBuffer {
            recv_req_status: false,
            recv_reply_status: false,
            req_items: ItemsQueue::new(capacity),
            res_items: ItemsQueue::new(capacity),
        }
    }

    /// Caller side of the call protocol: enqueues a request record and
    /// reports whether the doorbell toward the peer must be fired.
    ///
    /// The flag transition happens before the caller fires the doorbell,
    /// so a wake can never be lost; a full queue is reported as
    /// exhaustion and leaves the mailbox untouched.
    pub fn send_request(&mut self, item: &IPCItem) -> (r: Result<bool, RuntimeError>)
        requires
            old(self).wf(),
        ensures
            final(self).wf(),
            final(self).req_capacity() == old(self).req_capacity(),
            final(self).res_capacity() == old(self).res_capacity(),
            match r {
                Ok(fire) => {
                    &&& spec_send_request(old(self)@, *item, old(self).req_capacity()) == (
                    final(self)@,
                    true,
                    fire,
                    )
                    &&& fire == !old(self)@.req_flag
                },
                Err(e) => {
                    &&& e == RuntimeError::ResourceExhausted
                    &&& old(self)@.req.len() == old(self).req_capacity()
                    &&& final(self)@ == old(self)@
                },
            },
    {
        match self.req_items.write_free_item(item) {
            Ok(()) => {
                let fire = !self.recv_req_status;
                if fire {
                    self.recv_req_status = true;
                }
                Ok(fire)
            },
            Err(e) => Err(e),
        }
    }

    /// Callee side of the call protocol: takes the oldest pending request,
    /// or clears the request notify-owed flag when the queue is empty so
    /// that the next request triggers a fresh doorbell.
    pub fn take_request(&mut self) -> (r: Option<IPCItem>)
        requires
            old(self).wf(),
        ensures
            final(self).wf(),
            final(self).req_capacity() == old(self).req_capacity(),
            final(self).res_capacity() == old(self).res_capacity(),
            final(self)@.res == old(self)@.res,
            final(self)@.res_flag == old(self)@.res_flag,
            match r {
                Some(item) => {
                    &&& old(self)@.req.len() > 0
                    &&& item == old(self)@.req[0]
                    &&& final(self)@.req == old(self)@.req.drop_first()
                    &&& final(self)@.req_flag == old(self)@.req_flag
                },
                None => {
                    &&& old(self)@.req.len() == 0
                    &&& final(self)@.req == old(self)@.req
                    &&& !final(self)@.req_flag
                },
            },
    {
        match self.req_items.get_first_item() {
            Some(item) => Some(item),
            None => {
                self.recv_req_status = false;
                None
            },
        }
    }

    /// Callee side of the reply protocol: enqueues a reply record, tagged
    /// with the id of the caller it answers, and reports whether the
    /// doorbell toward the caller's context must be fired.
    pub fn send_reply(&mut self, item: &IPCItem) -> (r: Result<bool, RuntimeError>)
        requires
            old(self).wf(),
        ensures
            final(self).wf(),
            final(self).req_capacity() == old(self).req_capacity(),
            final(self).res_capacity() == old(self).res_capacity(),
            final(self)@.req == old(self)@.req,
            final(self)@.req_flag == old(self)@.req_flag,
            match r {
                Ok(fire) => {
                    &&& old(self)@.res.len() < old(self).res_capacity()
                    &&& final(self)@.res == old(self)@.res.push(*item)
                    &&& final(self)@.res_flag
                    &&& fire == !old(self)@.res_flag
                },
                Err(e) => {
                    &&& e == RuntimeError::ResourceExhausted
                    &&& old(self)@.res.len() == old(self).res_capacity()
                    &&& final(self)@ == old(self)@
                },
            },
    {
        match self.res_items.write_free_item(item) {
            Ok(()) => {
                let fire = !self.recv_reply_status;
                if fire {
                    self.recv_reply_status = true;
                }
                Ok(fire)
            },
            Err(e) => Err(e),
        }
    }

    /// Caller-context side of the reply protocol: takes the oldest pending
    /// reply, or clears the reply notify-owed flag when the queue is
    /// empty before the drain loop suspends.
    pub fn take_reply(&mut self) -> (r: Option<IPCItem>)
        requires
            old(self).wf(),
        ensures
            final(self).wf(),
            final(self).req_capacity() == old(self).req_capacity(),
            final(self).res_capacity() == old(self).res_capacity(),
            final(self)@.req == old(self)@.req,
            final(self)@.req_flag == old(self)@.req_flag,
            match r {
                Some(item) => {
                    &&& old(self)@.res.len() > 0
                    &&& item == old(self)@.res[0]
                    &&& final(self)@.res == old(self)@.res.drop_first()
                    &&& final(self)@.res_flag == old(self)@.res_flag
                },
                None => {
                    &&& old(self)@.res.len() == 0
                    &&& final(self)@.res == old(self)@.res
                    &&& !final(self)@.res_flag
                },
            },
    {
        match self.res_items.get_first_item() {
            Some(item) => Some(item),
            None => {
                self.recv_reply_status = false;
                None
            },
        }
    }
}

} // verus!
