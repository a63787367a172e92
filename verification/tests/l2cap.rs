use rubble::error::Error;
use rubble::l2cap::{Inbox, L2CAPState, Message};
use rubble::queue::PacketQueue;

fn delivered(state: &L2CAPState<Inbox>) -> Vec<Message> {
    let inbox = state.mapper();
    let mut all = Vec::new();
    for i in 0..inbox.len() {
        all.push(inbox.get(i).unwrap().clone());
    }
    assert_eq!(inbox.get(inbox.len()), None);
    all
}

#[test]
fn inbox_starts_empty() {
    let inbox = Inbox::new();
    assert_eq!(inbox.len(), 0);
    assert_eq!(inbox.get(0), None);
}

#[test]
fn new_state_is_idle() {
    let state = L2CAPState::new(Inbox::new());
    assert!(!state.is_collecting());
    assert_eq!(delivered(&state), vec![]);
}

#[test]
fn complete_start_is_forwarded_at_once() {
    let mut state = L2CAPState::new(Inbox::new());
    let mut tx = PacketQueue::new(16);
    let fragment = [0x03, 0x00, 0x04, 0x00, 0xaa, 0xbb, 0xcc];
    assert_eq!(state.tx(&mut tx).process_start(&fragment), Ok(()));
    assert!(!state.is_collecting());
    assert_eq!(delivered(&state), vec![Message { channel: 4, payload: vec![0xaa, 0xbb, 0xcc] }]);
    assert!(!tx.has_data());
}

#[test]
fn header_is_little_endian() {
    let mut state = L2CAPState::new(Inbox::new());
    let mut tx = PacketQueue::new(16);
    let mut fragment = vec![0x02, 0x01, 0x34, 0x12];
    fragment.extend_from_slice(&[7u8; 0x0102]);
    assert_eq!(state.tx(&mut tx).process_start(&fragment), Ok(()));
    assert_eq!(delivered(&state), vec![Message { channel: 0x1234, payload: vec![7u8; 0x0102] }]);
}

#[test]
fn empty_payload_is_forwarded() {
    let mut state = L2CAPState::new(Inbox::new());
    let mut tx = PacketQueue::new(16);
    assert_eq!(state.tx(&mut tx).process_start(&[0x00, 0x00, 0x05, 0x00]), Ok(()));
    assert!(!state.is_collecting());
    assert_eq!(delivered(&state), vec![Message { channel: 5, payload: vec![] }]);
}

#[test]
fn truncated_header_is_an_error() {
    let mut state = L2CAPState::new(Inbox::new());
    let mut tx = PacketQueue::new(16);
    assert_eq!(state.tx(&mut tx).process_start(&[]), Err(Error::InvalidLength));
    assert_eq!(state.tx(&mut tx).process_start(&[0x01]), Err(Error::InvalidLength));
    assert_eq!(state.tx(&mut tx).process_start(&[0x01, 0x00, 0x04]), Err(Error::InvalidLength));
    assert!(!state.is_collecting());
    assert_eq!(delivered(&state), vec![]);
}

#[test]
fn truncated_header_leaves_reassembly_alone() {
    let mut state = L2CAPState::new(Inbox::new());
    let mut tx = PacketQueue::new(16);
    assert_eq!(state.tx(&mut tx).process_start(&[0x03, 0x00, 0x04, 0x00, 1]), Ok(()));
    assert_eq!(state.tx(&mut tx).process_start(&[0x03, 0x00]), Err(Error::InvalidLength));
    assert!(state.is_collecting());
    assert_eq!(state.tx(&mut tx).process_cont(&[2, 3]), Ok(()));
    assert_eq!(delivered(&state), vec![Message { channel: 4, payload: vec![1, 2, 3] }]);
}

#[test]
fn stray_continuation_is_an_error() {
    let mut state = L2CAPState::new(Inbox::new());
    let mut tx = PacketQueue::new(16);
    assert_eq!(state.tx(&mut tx).process_cont(&[1, 2, 3]), Err(Error::UnexpectedContinuation));
    assert_eq!(state.tx(&mut tx).process_cont(&[]), Err(Error::UnexpectedContinuation));
    assert!(!state.is_collecting());
    assert_eq!(delivered(&state), vec![]);
}

#[test]
fn continuation_after_completion_is_an_error() {
    let mut state = L2CAPState::new(Inbox::new());
    let mut tx = PacketQueue::new(16);
    assert_eq!(state.tx(&mut tx).process_start(&[0x02, 0x00, 0x04, 0x00, 1]), Ok(()));
    assert_eq!(state.tx(&mut tx).process_cont(&[2]), Ok(()));
    assert_eq!(state.tx(&mut tx).process_cont(&[3]), Err(Error::UnexpectedContinuation));
    assert_eq!(delivered(&state), vec![Message { channel: 4, payload: vec![1, 2] }]);
}

#[test]
fn split_message_is_forwarded_when_complete() {
    let mut state = L2CAPState::new(Inbox::new());
    let mut tx = PacketQueue::new(16);
    assert_eq!(state.tx(&mut tx).process_start(&[0x07, 0x00, 0x40, 0x00, 1, 2]), Ok(()));
    assert!(state.is_collecting());
    assert_eq!(delivered(&state), vec![]);
    assert_eq!(state.tx(&mut tx).process_cont(&[3, 4, 5]), Ok(()));
    assert!(state.is_collecting());
    assert_eq!(delivered(&state), vec![]);
    assert_eq!(state.tx(&mut tx).process_cont(&[]), Ok(()));
    assert!(state.is_collecting());
    assert_eq!(state.tx(&mut tx).process_cont(&[6]), Ok(()));
    assert!(state.is_collecting());
    assert_eq!(delivered(&state), vec![]);
    assert_eq!(state.tx(&mut tx).process_cont(&[7]), Ok(()));
    assert!(!state.is_collecting());
    assert_eq!(
        delivered(&state),
        vec![Message { channel: 0x40, payload: vec![1, 2, 3, 4, 5, 6, 7] }]
    );
    assert!(!tx.has_data());
}

#[test]
fn start_with_header_only_waits_for_data() {
    let mut state = L2CAPState::new(Inbox::new());
    let mut tx = PacketQueue::new(16);
    assert_eq!(state.tx(&mut tx).process_start(&[0x02, 0x00, 0x04, 0x00]), Ok(()));
    assert!(state.is_collecting());
    assert_eq!(state.tx(&mut tx).process_cont(&[8, 9]), Ok(()));
    assert_eq!(delivered(&state), vec![Message { channel: 4, payload: vec![8, 9] }]);
}

#[test]
fn messages_are_forwarded_in_order() {
    let mut state = L2CAPState::new(Inbox::new());
    let mut tx = PacketQueue::new(16);
    assert_eq!(state.tx(&mut tx).process_start(&[0x01, 0x00, 0x04, 0x00, 0x11]), Ok(()));
    assert_eq!(state.tx(&mut tx).process_start(&[0x03, 0x00, 0x05, 0x00, 0x21]), Ok(()));
    assert_eq!(state.tx(&mut tx).process_cont(&[0x22, 0x23]), Ok(()));
    assert_eq!(state.tx(&mut tx).process_start(&[0x01, 0x00, 0x06, 0x00, 0x31]), Ok(()));
    assert_eq!(
        delivered(&state),
        vec![
            Message { channel: 4, payload: vec![0x11] },
            Message { channel: 5, payload: vec![0x21, 0x22, 0x23] },
            Message { channel: 6, payload: vec![0x31] },
        ]
    );
}

#[test]
fn new_start_drops_unfinished_message() {
    let mut state = L2CAPState::new(Inbox::new());
    let mut tx = PacketQueue::new(16);
    assert_eq!(state.tx(&mut tx).process_start(&[0x05, 0x00, 0x04, 0x00, 1, 2]), Ok(()));
    assert!(state.is_collecting());
    assert_eq!(state.tx(&mut tx).process_start(&[0x02, 0x00, 0x06, 0x00, 9]), Ok(()));
    assert!(state.is_collecting());
    assert_eq!(state.tx(&mut tx).process_cont(&[8]), Ok(()));
    assert_eq!(delivered(&state), vec![Message { channel: 6, payload: vec![9, 8] }]);
}

#[test]
fn data_beyond_declared_length_is_forwarded_too() {
    let mut state = L2CAPState::new(Inbox::new());
    let mut tx = PacketQueue::new(16);
    assert_eq!(state.tx(&mut tx).process_start(&[0x01, 0x00, 0x04, 0x00, 1, 2]), Ok(()));
    assert_eq!(state.tx(&mut tx).process_start(&[0x03, 0x00, 0x04, 0x00, 1]), Ok(()));
    assert_eq!(state.tx(&mut tx).process_cont(&[2, 3, 4]), Ok(()));
    assert_eq!(
        delivered(&state),
        vec![
            Message { channel: 4, payload: vec![1, 2] },
            Message { channel: 4, payload: vec![1, 2, 3, 4] },
        ]
    );
}

#[test]
fn transmit_queue_is_left_alone() {
    let mut state = L2CAPState::new(Inbox::new());
    let mut tx = PacketQueue::new(16);
    assert_eq!(tx.produce(rubble::queue::Llid::Control, &[1, 2]), Ok(()));
    assert_eq!(state.tx(&mut tx).process_start(&[0x01, 0x00, 0x04, 0x00, 1]), Ok(()));
    assert_eq!(tx.free_space(), 12);
    assert_eq!(tx.peek(), Some(rubble::queue::Pdu::Control { data: vec![1, 2] }));
}
