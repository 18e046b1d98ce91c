use async_runtime::{
    process_one_reply, register_recv_cid, submit_call, uintr_handler, wake_recv_coroutine,
    wake_with_value, AsyncErrorLabel, AsyncMessageLabel, Computation, CoroutineId, Executor,
    IPCItem, ItemsQueue, MessageBuilder, MessageDecoder, MessageType, NewBuffer, ReplyStep,
    RuntimeError, WakeTable, MAX_UINT_VEC,
};

#[test]
fn three_writes_into_capacity_two_queue() {
    // request queue with capacity 2: Ok, Ok, Err(Full); after one drain
    // a fourth write succeeds again
    let mut q = ItemsQueue::new(2);
    let item = IPCItem::from(CoroutineId(1), 7);
    assert!(q.write_free_item(&item).is_ok());
    assert!(q.write_free_item(&item).is_ok());
    assert_eq!(
        q.write_free_item(&item),
        Err(RuntimeError::ResourceExhausted)
    );
    assert!(q.get_first_item().is_some());
    assert!(q.write_free_item(&item).is_ok());
}

#[test]
fn items_queue_is_fifo() {
    let mut q = ItemsQueue::new(4);
    q.write_free_item(&IPCItem::from(CoroutineId(1), 10)).unwrap();
    q.write_free_item(&IPCItem::from(CoroutineId(2), 20)).unwrap();
    let first = q.get_first_item().unwrap();
    let second = q.get_first_item().unwrap();
    assert_eq!(first.msg_info, 10);
    assert_eq!(second.msg_info, 20);
    assert!(q.get_first_item().is_none());
}

#[test]
fn doorbell_fires_once_per_burst() {
    let mut nb = NewBuffer::new(8);
    let item = IPCItem::from(CoroutineId(3), 42);
    // the first request of the burst owes a doorbell, later ones coalesce
    assert_eq!(nb.send_request(&item), Ok(true));
    assert_eq!(nb.send_request(&item), Ok(false));
    assert_eq!(nb.send_request(&item), Ok(false));
    // the peer drains the queue; the empty take clears the owed flag
    assert!(nb.take_request().is_some());
    assert!(nb.take_request().is_some());
    assert!(nb.take_request().is_some());
    assert!(nb.take_request().is_none());
    // a fresh request owes a doorbell again
    assert_eq!(nb.send_request(&item), Ok(true));
}

#[test]
fn reply_doorbell_coalesces_like_the_request_one() {
    let mut nb = NewBuffer::new(8);
    let item = IPCItem::from(CoroutineId(3), 42);
    assert_eq!(nb.send_reply(&item), Ok(true));
    assert_eq!(nb.send_reply(&item), Ok(false));
    assert!(nb.take_reply().is_some());
    assert!(nb.take_reply().is_some());
    assert!(nb.take_reply().is_none());
    assert_eq!(nb.send_reply(&item), Ok(true));
}

#[test]
fn full_request_queue_reports_exhaustion_and_keeps_state() {
    let mut nb = NewBuffer::new(1);
    let item = IPCItem::from(CoroutineId(1), 1);
    assert_eq!(nb.send_request(&item), Ok(true));
    assert_eq!(
        nb.send_request(&item),
        Err(RuntimeError::ResourceExhausted)
    );
    // the queued record is still there, untouched
    let got = nb.take_request().unwrap();
    assert_eq!(got.msg_info, 1);
    assert!(nb.take_request().is_none());
}

#[test]
fn replies_are_delivered_only_to_their_origin() {
    let mut e = Executor::new();
    let a = e.spawn(Computation::new(1), 1).unwrap();
    let b = e.spawn(Computation::new(1), 1).unwrap();
    e.run_until_blocked();
    let mut nb = NewBuffer::new(4);
    nb.send_reply(&IPCItem::from(a, 111)).unwrap();
    nb.send_reply(&IPCItem::from(b, 222)).unwrap();
    assert_eq!(process_one_reply(&mut e, &mut nb), ReplyStep::Delivered(a));
    assert_eq!(process_one_reply(&mut e, &mut nb), ReplyStep::Delivered(b));
    assert_eq!(process_one_reply(&mut e, &mut nb), ReplyStep::WouldBlock);
    // each caller reads exactly the reply tagged with its own id
    assert_eq!(e.take_immediate_value(&a).unwrap().msg_info, 111);
    assert_eq!(e.take_immediate_value(&b).unwrap().msg_info, 222);
    // the slots are one-shot
    assert!(e.take_immediate_value(&a).is_none());
    // both callers were woken by their deliveries
    assert_eq!(e.fetch(), Some(a));
    assert_eq!(e.fetch(), Some(b));
}

#[test]
fn reply_for_a_dead_id_is_dropped() {
    let mut e = Executor::new();
    let mut nb = NewBuffer::new(4);
    nb.send_reply(&IPCItem::from(CoroutineId(7), 5)).unwrap();
    assert_eq!(
        process_one_reply(&mut e, &mut nb),
        ReplyStep::Stale(CoroutineId(7))
    );
    assert_eq!(process_one_reply(&mut e, &mut nb), ReplyStep::WouldBlock);
}

#[test]
fn wake_with_value_rejects_dead_ids() {
    let mut e = Executor::new();
    let item = IPCItem::from(CoroutineId(2), 9);
    assert_eq!(
        wake_with_value(&mut e, &CoroutineId(2), &item),
        Err(RuntimeError::Fatal)
    );
}

#[test]
fn submit_call_builds_and_enqueues_the_request() {
    let mut nb = NewBuffer::new(4);
    let cid = CoroutineId(5);
    assert_eq!(submit_call(&mut nb, &cid, 77), Ok(true));
    assert_eq!(submit_call(&mut nb, &cid, 78), Ok(false));
    let first = nb.take_request().unwrap();
    assert_eq!(first.cid, cid);
    assert_eq!(first.msg_info, 77);
    let second = nb.take_request().unwrap();
    assert_eq!(second.msg_info, 78);
}

#[test]
fn call_round_trip_through_the_mailbox() {
    // one executor plays both contexts of a call: enqueue a request,
    // serve it, deliver the reply, resume the caller
    let mut e = Executor::new();
    let caller = e.spawn(Computation::new(1), 1).unwrap();
    assert_eq!(e.fetch(), Some(caller));
    let mut nb = NewBuffer::new(4);
    let fire = submit_call(&mut nb, &caller, 40).unwrap();
    assert!(fire);
    assert_eq!(e.execute_task(&caller).unwrap(), async_runtime::PollState::Pending);
    // the peer serves the request and replies with the tag incremented
    let req = nb.take_request().unwrap();
    let reply = IPCItem::from(req.cid, req.msg_info + 1);
    assert_eq!(nb.send_reply(&reply), Ok(true));
    // the caller-side drain loop delivers the reply and wakes the caller
    assert_eq!(
        process_one_reply(&mut e, &mut nb),
        ReplyStep::Delivered(caller)
    );
    assert_eq!(e.fetch(), Some(caller));
    assert_eq!(e.take_immediate_value(&caller).unwrap().msg_info, 41);
}

#[test]
fn notification_vectors_are_handed_out_lowest_first() {
    let mut t = WakeTable::new();
    assert_eq!(register_recv_cid(&mut t, &CoroutineId(10)), Some(0));
    assert_eq!(register_recv_cid(&mut t, &CoroutineId(11)), Some(1));
}

#[test]
fn notification_vectors_run_out_after_the_last_one() {
    let mut t = WakeTable::new();
    for i in 0..MAX_UINT_VEC {
        assert_eq!(register_recv_cid(&mut t, &CoroutineId(i as u32)), Some(i));
    }
    assert_eq!(register_recv_cid(&mut t, &CoroutineId(99)), None);
}

#[test]
fn handler_records_deferred_wakes_for_fired_vectors() {
    let mut e = Executor::new();
    let a = e.spawn(Computation::new(1), 2).unwrap();
    e.run_until_blocked();
    let mut t = WakeTable::new();
    let vec = register_recv_cid(&mut t, &a).unwrap();
    assert_eq!(uintr_handler(&mut e, &t, 1u64 << vec), 0);
    // the deferred wake surfaces on the next fetch
    assert_eq!(e.fetch(), Some(a));
}

#[test]
fn handler_skips_unregistered_vectors() {
    let mut e = Executor::new();
    let t = WakeTable::new();
    assert_eq!(uintr_handler(&mut e, &t, u64::MAX), 0);
    assert_eq!(e.fetch(), None);
}

#[test]
fn waking_an_unregistered_vector_is_a_fault() {
    let mut e = Executor::new();
    let t = WakeTable::new();
    assert_eq!(
        wake_recv_coroutine(&mut e, &t, 3),
        Err(RuntimeError::Fatal)
    );
    assert_eq!(
        wake_recv_coroutine(&mut e, &t, MAX_UINT_VEC),
        Err(RuntimeError::Fatal)
    );
}

#[test]
fn message_record_layout_is_zeroed_and_tagged() {
    let item = IPCItem::new();
    assert_eq!(item.cid, CoroutineId(0));
    assert_eq!(item.msg_info, 0);
    assert_eq!(item.extend_msg, [0u16; 16]);
    let tagged = IPCItem::from(CoroutineId(9), 33);
    assert_eq!(tagged.cid, CoroutineId(9));
    assert_eq!(tagged.msg_info, 33);
    assert_eq!(tagged.extend_msg, [0u16; 16]);
    let defaulted: IPCItem = Default::default();
    assert_eq!(defaulted.msg_info, 0);
}

#[test]
fn async_labels_round_trip_on_the_defined_range() {
    for code in 0u32..18 {
        let label = AsyncMessageLabel::from_u32(code);
        assert_ne!(label, AsyncMessageLabel::UnknownLabel);
        assert_eq!(label.as_u32(), code);
    }
    assert_eq!(
        AsyncMessageLabel::from_u32(18),
        AsyncMessageLabel::UnknownLabel
    );
    assert_eq!(
        AsyncMessageLabel::from_u32(7777),
        AsyncMessageLabel::UnknownLabel
    );
    assert_eq!(AsyncMessageLabel::from_u32(5).as_u32(), 5);
    assert_eq!(AsyncMessageLabel::PutString.as_u32(), 17);
}

#[test]
fn error_labels_classify_the_error_word() {
    assert_eq!(AsyncErrorLabel::from_u16(0), AsyncErrorLabel::NoError);
    assert_eq!(AsyncErrorLabel::from_u16(1), AsyncErrorLabel::SyscallError);
    assert_eq!(AsyncErrorLabel::from_u16(900), AsyncErrorLabel::SyscallError);
    assert_eq!(AsyncErrorLabel::NoError.as_u16(), 0);
    assert_eq!(AsyncErrorLabel::SyscallError.as_u16(), 1);
}

#[test]
fn builders_and_decoders_agree_on_the_wire_fields() {
    let cid = CoroutineId(12);
    let listen = MessageBuilder::listen(cid, 8080);
    assert_eq!(MessageDecoder::get_cid(&listen), cid);
    assert_eq!(MessageDecoder::get_port(&listen), 8080);
    assert_eq!(MessageDecoder::get_type(&listen), Ok(MessageType::Listen));

    let sent = MessageBuilder::send_reply(cid, 1400);
    assert_eq!(MessageDecoder::get_len(&sent), 1400);
    assert_eq!(MessageDecoder::get_type(&sent), Ok(MessageType::SendReply));

    let received = MessageBuilder::recv_reply(cid, 512);
    assert_eq!(MessageDecoder::get_len(&received), 512);
    assert_eq!(
        MessageDecoder::get_type(&received),
        Ok(MessageType::RecvReply)
    );
}

#[test]
fn unknown_wire_tags_are_a_protocol_violation() {
    let item = IPCItem::from(CoroutineId(1), 8);
    assert_eq!(
        MessageDecoder::get_type(&item),
        Err(RuntimeError::ProtocolViolation)
    );
    let item = IPCItem::from(CoroutineId(1), 10_000);
    assert_eq!(
        MessageDecoder::get_type(&item),
        Err(RuntimeError::ProtocolViolation)
    );
}

#[test]
fn message_type_codes_are_stable() {
    assert_eq!(MessageType::Reserve.as_u32(), 0);
    assert_eq!(MessageType::NetPollReq.as_u32(), 1);
    assert_eq!(MessageType::Listen.as_u32(), 2);
    assert_eq!(MessageType::ListenReply.as_u32(), 3);
    assert_eq!(MessageType::Send.as_u32(), 4);
    assert_eq!(MessageType::SendReply.as_u32(), 5);
    assert_eq!(MessageType::Recv.as_u32(), 6);
    assert_eq!(MessageType::RecvReply.as_u32(), 7);
}
