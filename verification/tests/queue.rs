use rubble::error::Error;
use rubble::queue::{Consume, Llid, PacketQueue, Pdu};

#[test]
fn llid_tags_round_trip() {
    assert_eq!(Llid::DataCont.to_tag(), 1);
    assert_eq!(Llid::DataStart.to_tag(), 2);
    assert_eq!(Llid::Control.to_tag(), 3);
    assert_eq!(Llid::from_tag(1), Some(Llid::DataCont));
    assert_eq!(Llid::from_tag(2), Some(Llid::DataStart));
    assert_eq!(Llid::from_tag(3), Some(Llid::Control));
    assert_eq!(Llid::from_tag(0), None);
    assert_eq!(Llid::from_tag(4), None);
}

#[test]
fn pdu_keeps_kind_and_body() {
    let pdu = Pdu::new(Llid::DataStart, vec![1, 2, 3]);
    assert_eq!(pdu, Pdu::DataStart { message: vec![1, 2, 3] });
    assert_eq!(pdu.llid(), Llid::DataStart);
    assert_eq!(pdu.payload(), &[1, 2, 3]);
    assert_eq!(Pdu::new(Llid::Control, vec![7]), Pdu::Control { data: vec![7] });
    assert_eq!(Pdu::new(Llid::DataCont, vec![]), Pdu::DataCont { message: vec![] });
}

#[test]
fn consume_constructors() {
    assert_eq!(Consume::always(Err(Error::Eof)), Consume { consume: true, result: Err(Error::Eof) });
    assert_eq!(Consume::never(Ok(())), Consume { consume: false, result: Ok(()) });
    assert_eq!(Consume::on_success(Ok(())), Consume { consume: true, result: Ok(()) });
    assert_eq!(
        Consume::on_success(Err(Error::QueueFull)),
        Consume { consume: false, result: Err(Error::QueueFull) }
    );
}

#[test]
fn new_queue_is_empty() {
    let q = PacketQueue::new(32);
    assert_eq!(q.capacity(), 32);
    assert_eq!(q.free_space(), 32);
    assert!(!q.has_data());
    assert_eq!(q.peek(), None);
}

#[test]
fn record_occupies_header_and_body() {
    let mut q = PacketQueue::new(32);
    assert_eq!(q.produce(Llid::Control, &[9, 8, 7]), Ok(()));
    assert_eq!(q.free_space(), 32 - 5);
    assert_eq!(q.produce(Llid::DataCont, &[]), Ok(()));
    assert_eq!(q.free_space(), 32 - 7);
}

#[test]
fn has_data_follows_produced_and_consumed() {
    let mut q = PacketQueue::new(64);
    assert!(!q.has_data());
    assert_eq!(q.produce(Llid::Control, &[1]), Ok(()));
    assert!(q.has_data());
    assert_eq!(q.produce(Llid::DataStart, &[2, 3]), Ok(()));
    assert!(q.has_data());
    // Looking at a record and keeping it removes nothing.
    assert_eq!(q.conclude(Consume::never(Ok(()))), Ok(()));
    assert!(q.has_data());
    assert_eq!(q.conclude(Consume::always(Ok(()))), Ok(()));
    assert!(q.has_data());
    assert_eq!(q.conclude(Consume::always(Ok(()))), Ok(()));
    assert!(!q.has_data());
    assert_eq!(q.produce(Llid::DataCont, &[4]), Ok(()));
    assert!(q.has_data());
    assert_eq!(q.conclude(Consume::always(Ok(()))), Ok(()));
    assert!(!q.has_data());
}

#[test]
fn records_leave_in_order() {
    let mut q = PacketQueue::new(64);
    assert_eq!(q.produce(Llid::Control, &[1]), Ok(()));
    assert_eq!(q.produce(Llid::DataStart, &[2, 3]), Ok(()));
    assert_eq!(q.produce(Llid::DataCont, &[]), Ok(()));
    assert_eq!(q.peek(), Some(Pdu::Control { data: vec![1] }));
    assert_eq!(q.conclude(Consume::always(Ok(()))), Ok(()));
    assert_eq!(q.peek(), Some(Pdu::DataStart { message: vec![2, 3] }));
    assert_eq!(q.conclude(Consume::always(Ok(()))), Ok(()));
    assert_eq!(q.peek(), Some(Pdu::DataCont { message: vec![] }));
    assert_eq!(q.conclude(Consume::always(Ok(()))), Ok(()));
    assert_eq!(q.peek(), None);
}

#[test]
fn kept_record_stays_at_head() {
    let mut q = PacketQueue::new(64);
    assert_eq!(q.produce(Llid::Control, &[5, 6]), Ok(()));
    assert_eq!(q.produce(Llid::Control, &[7]), Ok(()));
    assert_eq!(q.conclude(Consume::never(Err(Error::QueueFull))), Err(Error::QueueFull));
    assert_eq!(q.peek(), Some(Pdu::Control { data: vec![5, 6] }));
    assert_eq!(q.free_space(), 64 - 7);
}

#[test]
fn conclude_hands_back_the_result() {
    let mut q = PacketQueue::new(64);
    assert_eq!(q.produce(Llid::Control, &[5]), Ok(()));
    assert_eq!(q.conclude(Consume::always(Err(Error::InvalidLength))), Err(Error::InvalidLength));
    assert!(!q.has_data());
    // On an empty queue there is nothing to remove.
    assert_eq!(q.conclude(Consume::always(Ok(()))), Ok(()));
    assert!(!q.has_data());
    assert_eq!(q.free_space(), 64);
}

#[test]
fn full_queue_refuses_whole_record() {
    let mut q = PacketQueue::new(6);
    assert_eq!(q.produce(Llid::Control, &[1, 2]), Ok(()));
    assert!(!q.can_accept(1));
    assert!(q.can_accept(0));
    assert_eq!(q.produce(Llid::Control, &[3]), Err(Error::QueueFull));
    assert_eq!(q.free_space(), 2);
    assert_eq!(q.peek(), Some(Pdu::Control { data: vec![1, 2] }));
    assert_eq!(q.conclude(Consume::always(Ok(()))), Ok(()));
    assert_eq!(q.peek(), None);
    assert_eq!(q.produce(Llid::Control, &[3]), Ok(()));
    assert_eq!(q.peek(), Some(Pdu::Control { data: vec![3] }));
}

#[test]
fn queue_of_exact_size() {
    let mut q = PacketQueue::new(4);
    assert!(q.can_accept(2));
    assert!(!q.can_accept(3));
    assert_eq!(q.produce(Llid::Control, &[1, 2, 3]), Err(Error::QueueFull));
    assert_eq!(q.produce(Llid::Control, &[1, 2]), Ok(()));
    assert_eq!(q.free_space(), 0);
    assert_eq!(q.produce(Llid::DataCont, &[]), Err(Error::QueueFull));
}

#[test]
fn queue_smaller_than_a_header() {
    let mut q = PacketQueue::new(1);
    assert!(!q.can_accept(0));
    assert_eq!(q.produce(Llid::DataCont, &[]), Err(Error::QueueFull));
    assert!(!q.has_data());
}

#[test]
fn longest_body_is_255_bytes() {
    let mut q = PacketQueue::new(1024);
    let longest = vec![0xabu8; 255];
    let too_long = vec![0xcdu8; 256];
    assert_eq!(q.produce(Llid::DataStart, &too_long), Err(Error::InvalidLength));
    assert!(!q.has_data());
    assert!(!q.can_accept(256));
    assert_eq!(q.produce(Llid::DataStart, &longest), Ok(()));
    assert_eq!(q.free_space(), 1024 - 257);
    assert_eq!(q.peek(), Some(Pdu::DataStart { message: longest }));
}

#[test]
fn space_is_reused_after_consumption() {
    let mut q = PacketQueue::new(8);
    for round in 0..20u8 {
        assert_eq!(q.produce(Llid::Control, &[round, round, round]), Ok(()));
        assert_eq!(q.produce(Llid::Control, &[round]), Ok(()));
        assert_eq!(q.produce(Llid::Control, &[]), Err(Error::QueueFull));
        assert_eq!(q.peek(), Some(Pdu::Control { data: vec![round, round, round] }));
        assert_eq!(q.conclude(Consume::always(Ok(()))), Ok(()));
        assert_eq!(q.peek(), Some(Pdu::Control { data: vec![round] }));
        assert_eq!(q.conclude(Consume::always(Ok(()))), Ok(()));
        assert!(!q.has_data());
    }
}

#[test]
fn recoverable_errors() {
    assert!(Error::Eof.is_recoverable());
    assert!(Error::QueueFull.is_recoverable());
    assert!(Error::InvalidState.is_recoverable());
    assert!(!Error::InvalidLength.is_recoverable());
    assert!(!Error::UnexpectedContinuation.is_recoverable());
}
