use vstd::prelude::*;
use vstd::array::ArrayAdditionalExecFns;

use crate::coroutine::CoroutineId;
use crate::error::RuntimeError;
use crate::new_buffer::IPCItem;

verus! {

/// The operations of the network service protocol spoken over the
/// mailbox. Wire values `0..8` are defined; anything else is rejected
/// as a protocol violation.
#[derive(Clone, Copy, Debug, PartialEq, Eq, Structural)]
pub enum MessageType {
    Reserve,
    NetPollReq,
    Listen,
    ListenReply,
    Send,
    SendReply,
    Recv,
    RecvReply,
}

/// The wire encoding of a message type.
pub open spec fn spec_type_code(t: MessageType) -> u32 {
    match t {
        MessageType::Reserve => 0,
        MessageType::NetPollReq => 1,
        MessageType::Listen => 2,
        MessageType::ListenReply => 3,
        MessageType::Send => 4,
        MessageType::SendReply => 5,
        MessageType::Recv => 6,
        MessageType::RecvReply => 7,
    }
}

impl MessageType {
    /// Encodes the type as its wire value.
    pub fn as_u32(&self) -> (r: u32)
        ensures
            r == spec_type_code(*self),
    {
        match *self {
            MessageType::Reserve => 0,
            MessageType::NetPollReq => 1,
            MessageType::Listen => 2,
            MessageType::ListenReply => 3,
            MessageType::Send => 4,
            MessageType::SendReply => 5,
            MessageType::Recv => 6,
            MessageType::RecvReply => 7,
        }
    }
}

/// Builds the fixed-format records of the network service protocol.
pub struct MessageBuilder;

/// Reads the fields of such records back out.
pub struct MessageDecoder;

impl MessageBuilder {
    /// A listen request: binds `port`, tagged with the caller's id.
    pub fn listen(cid: CoroutineId, port: usize) -> (r: IPCItem)
        ensures
            r.cid == cid,
            r.msg_info == spec_type_code(MessageType::Listen),
            r.extend_msg@[0] == port as u16,
            forall|i: int| 1 <= i < 16 ==> r.extend_msg@[i] == 0,
    {
        let mut item = IPCItem::default();
        item.cid = cid;
        item.msg_info = MessageType::Listen.as_u32();
        item.extend_msg.set(0, port as u16);
        item
    }

    /// A send reply, reporting how many bytes were accepted.
    pub fn send_reply(cid: CoroutineId, send_size: usize) -> (r: IPCItem)
        ensures
            r.cid == cid,
            r.msg_info == spec_type_code(MessageType::SendReply),
            r.extend_msg@[1] == send_size as u16,
            r.extend_msg@[0] == 0,
            forall|i: int| 2 <= i < 16 ==> r.extend_msg@[i] == 0,
    {
        let mut item = IPCItem::default();
        item.cid = cid;
        item.msg_info = MessageType::SendReply.as_u32();
        item.extend_msg.set(1, send_size as u16);
        item
    }

    /// A receive reply, reporting how many bytes were read.
    pub fn recv_reply(cid: CoroutineId, read_size: usize) -> (r: IPCItem)
        ensures
            r.cid == cid,
            r.msg_info == spec_type_code(MessageType::RecvReply),
            r.extend_msg@[1] == read_size as u16,
            r.extend_msg@[0] == 0,
            forall|i: int| 2 <= i < 16 ==> r.extend_msg@[i] == 0,
    {
        let mut item = IPCItem::default();
        item.cid = cid;
        item.msg_info = MessageType::RecvReply.as_u32();
        item.extend_msg.set(1, read_size as u16);
        item
    }
}

impl MessageDecoder {
    /// The id of the task the record belongs to.
    pub fn get_cid(item: &IPCItem) -> (r: CoroutineId)
        ensures
            r == item.cid,
    {
        item.cid
    }

    /// The port carried in the first extension word.
    pub fn get_port(item: &IPCItem) -> (r: usize)
        ensures
            r == item.extend_msg@[0] as usize,
    {
        item.extend_msg[0] as usize
    }

    /// The length carried in the second extension word.
    pub fn get_len(item: &IPCItem) -> (r: usize)
        ensures
            r == item.extend_msg@[1] as usize,
    {
        item.extend_msg[1] as usize
    }

    /// Classifies the record's operation tag; a tag outside the defined
    /// range is reported as a protocol violation, never undefined
    /// behaviour.
    pub fn get_type(item: &IPCItem) -> (r: Result<MessageType, RuntimeError>)
        ensures
            match r {
                Ok(t) => spec_type_code(t) == item.msg_info,
                Err(e) => e == RuntimeError::ProtocolViolation && item.msg_info >= 8,
            },
    {
        match item.msg_info {
            0 => Ok(MessageType::Reserve),
            1 => Ok(MessageType::NetPollReq),
            2 => Ok(MessageType::Listen),
            3 => Ok(MessageType::ListenReply),
            4 => Ok(MessageType::Send),
            5 => Ok(MessageType::SendReply),
            6 => Ok(MessageType::Recv),
            7 => Ok(MessageType::RecvReply),
            _ => Err(RuntimeError::ProtocolViolation),
        }
    }
}

} // verus!
