use lay_wayland::connection::{
    ConnError, Discovery, DiscoveryAction, DiscoveryEvent, DEFAULT_DISPLAY,
};
use lay_wayland::header::Header;
use lay_wayland::queue::{FlushError, Inbox, ReceiveError, SendError, SendQueue};
use std::cell::RefCell;

fn drain(queue: &mut SendQueue, wire: &mut Vec<u8>, step: usize) {
    while let Some(chunk) = queue.next_chunk() {
        let n = if chunk.len() < step { chunk.len() } else { step };
        wire.extend_from_slice(&chunk[..n]);
        queue.advance(n);
    }
}

#[test]
fn concurrent_sends_are_not_interleaved() {
    let mut queue = SendQueue::new();
    let a = vec![1u8; 10];
    let b = vec![2u8; 7];
    let c = vec![3u8; 13];
    assert_eq!(queue.submit(a.clone()), Ok(()));
    let mut wire = Vec::new();
    let first = queue.next_chunk().unwrap().to_vec();
    wire.extend_from_slice(&first[..3]);
    queue.advance(3);
    assert_eq!(queue.submit(b.clone()), Ok(()));
    assert_eq!(queue.submit(c.clone()), Ok(()));
    assert_eq!(queue.next_chunk().unwrap(), &a[3..]);
    drain(&mut queue, &mut wire, 4);
    let mut expected = a.clone();
    expected.extend_from_slice(&b);
    expected.extend_from_slice(&c);
    assert_eq!(wire, expected);
    assert!(queue.is_idle());
}

#[test]
fn send_queue_errors() {
    let mut queue = SendQueue::new();
    assert_eq!(queue.submit(Vec::new()), Err(SendError::Empty));
    assert_eq!(queue.submit(vec![1, 2, 3]), Ok(()));
    queue.advance(1);
    queue.cancel();
    assert!(queue.is_broken());
    assert!(queue.next_chunk().is_none());
    assert_eq!(queue.submit(vec![4]), Err(SendError::Broken));
}

#[test]
fn cancel_before_writing_drops_message() {
    let mut queue = SendQueue::new();
    assert_eq!(queue.submit(vec![1, 2]), Ok(()));
    assert_eq!(queue.submit(vec![3]), Ok(()));
    queue.cancel();
    assert!(!queue.is_broken());
    assert_eq!(queue.next_chunk().unwrap(), &[3]);
}

#[test]
fn inbox_hands_out_whole_messages() {
    let mut inbox = Inbox::new();
    let message = [2u8, 0, 0, 0, 1, 0, 12, 0, 9, 8, 7, 6];
    inbox.push(&message[..5]);
    assert_eq!(inbox.next_message(), Ok(None));
    inbox.push(&message[5..10]);
    assert_eq!(inbox.next_message(), Ok(None));
    assert_eq!(inbox.buffered_len(), 10);
    inbox.push(&message[10..]);
    inbox.push(&[2, 0]);
    let (header, payload) = inbox.next_message().unwrap().unwrap();
    assert_eq!(header, Header::from_bytes(&message).unwrap());
    assert_eq!(payload, vec![9, 8, 7, 6]);
    assert_eq!(inbox.buffered_len(), 2);
    assert_eq!(inbox.next_message(), Ok(None));
}

#[test]
fn inbox_rejects_short_length() {
    let mut inbox = Inbox::new();
    inbox.push(&[1, 0, 0, 0, 0, 0, 4, 0]);
    assert_eq!(inbox.next_message(), Err(ReceiveError::BadLength));
    assert_eq!(inbox.buffered_len(), 8);
}

#[test]
fn discovery_prefers_inherited_descriptor() {
    let mut d = Discovery::start(Some("5"), true, true);
    assert_eq!(d.action(), DiscoveryAction::CheckDescriptor(5));
    d = d.next(DiscoveryEvent::Succeeded);
    assert_eq!(d.action(), DiscoveryAction::MarkCloseOnExec(5));
    d = d.next(DiscoveryEvent::Succeeded);
    assert_eq!(d.action(), DiscoveryAction::Ready);
    let bad = Discovery::start(Some("5"), true, true).next(DiscoveryEvent::FailedWith(9));
    assert_eq!(bad.action(), DiscoveryAction::Fail(ConnError::InvalidFD));
    let flags = Discovery::start(Some("-3"), true, true)
        .next(DiscoveryEvent::Succeeded)
        .next(DiscoveryEvent::FailedWith(1));
    assert_eq!(flags.action(), DiscoveryAction::Fail(ConnError::InvalidEnv));
}

#[test]
fn discovery_rejects_malformed_descriptor() {
    for text in ["five", "", " 5", "5 ", "-", "+", "2147483648", "0x5"] {
        let d = Discovery::start(Some(text), true, true);
        assert_eq!(d.action(), DiscoveryAction::Fail(ConnError::InvalidEnv));
    }
    assert_eq!(
        Discovery::start(Some("+7"), false, false).action(),
        DiscoveryAction::CheckDescriptor(7)
    );
    assert_eq!(
        Discovery::start(Some("-2147483648"), false, false).action(),
        DiscoveryAction::CheckDescriptor(i32::MIN)
    );
}

#[test]
fn discovery_tries_display_then_default() {
    let d = Discovery::start(None, true, true);
    assert_eq!(d.action(), DiscoveryAction::ConnectDisplay);
    let d = d.next(DiscoveryEvent::FailedWith(2));
    assert_eq!(d.action(), DiscoveryAction::ConnectDefault);
    let d = d.next(DiscoveryEvent::FailedWith(111));
    assert_eq!(d.action(), DiscoveryAction::Fail(ConnError::IoError { errno: 111 }));
    let only_dir = Discovery::start(None, true, false);
    assert_eq!(only_dir.action(), DiscoveryAction::ConnectDefault);
    assert_eq!(only_dir.next(DiscoveryEvent::Succeeded).action(), DiscoveryAction::Ready);
    assert_eq!(DEFAULT_DISPLAY, "wayland-0");
}

#[test]
fn discovery_without_environment_is_not_found() {
    let d = Discovery::start(None, false, true);
    assert_eq!(d.action(), DiscoveryAction::Fail(ConnError::NotFound));
    assert_eq!(d.next(DiscoveryEvent::Succeeded), d);
}

#[test]
fn framed_request_is_received_whole() {
    let framed = lay_wayland::request::frame_request(3, 7, &[1, 2, 3, 4, 5]).unwrap();
    let mut inbox = Inbox::new();
    inbox.push(&framed);
    inbox.push(&[0xaa]);
    let (header, payload) = inbox.next_message().unwrap().unwrap();
    assert_eq!((header.object_id(), header.opcode(), header.len()), (3, 7, 13));
    assert_eq!(payload, vec![1, 2, 3, 4, 5]);
    assert_eq!(inbox.buffered_len(), 1);
}

#[test]
fn flush_writes_whole_messages_in_order() {
    let mut queue = SendQueue::new();
    for m in [vec![1u8; 5], vec![2u8; 2], vec![3u8; 9]] {
        assert_eq!(queue.submit(m), Ok(()));
    }
    let wire = RefCell::new(Vec::new());
    let write = |chunk: &[u8]| -> Result<usize, ()> {
        let n = chunk.len().min(3);
        wire.borrow_mut().extend_from_slice(&chunk[..n]);
        Ok(n)
    };
    assert!(queue.flush(&write).is_ok());
    assert!(queue.is_idle());
    let mut expected = vec![1u8; 5];
    expected.extend_from_slice(&[2, 2]);
    expected.extend_from_slice(&[3; 9]);
    assert_eq!(*wire.borrow(), expected);
}

#[test]
fn flush_stops_on_failed_or_stalled_write() {
    let mut queue = SendQueue::new();
    assert_eq!(queue.submit(vec![1, 2, 3, 4]), Ok(()));
    let failing = |_: &[u8]| -> Result<usize, i32> { Err(11) };
    assert!(matches!(queue.flush(&failing), Err(FlushError::Write(11))));
    let stalled = |_: &[u8]| -> Result<usize, i32> { Ok(0) };
    assert!(matches!(queue.flush(&stalled), Err(FlushError::NoProgress)));
    let greedy = |chunk: &[u8]| -> Result<usize, i32> { Ok(chunk.len() + 1) };
    assert!(matches!(queue.flush(&greedy), Err(FlushError::NoProgress)));
    assert_eq!(queue.next_chunk().unwrap(), &[1, 2, 3, 4]);
    queue.advance(2);
    queue.cancel();
    let ok = |chunk: &[u8]| -> Result<usize, i32> { Ok(chunk.len()) };
    assert!(matches!(queue.flush(&ok), Err(FlushError::Broken)));
}

#[test]
fn record_write_refuses_impossible_counts() {
    let mut queue = SendQueue::new();
    assert_eq!(queue.submit(vec![1, 2, 3]), Ok(()));
    assert_eq!(queue.record_write(0), Err(SendError::NoProgress));
    assert_eq!(queue.record_write(4), Err(SendError::NoProgress));
    assert_eq!(queue.next_chunk().unwrap(), &[1, 2, 3]);
    assert_eq!(queue.record_write(2), Ok(()));
    assert_eq!(queue.next_chunk().unwrap(), &[3]);
    assert_eq!(queue.record_write(2), Err(SendError::NoProgress));
    assert_eq!(queue.record_write(1), Ok(()));
    assert!(queue.is_idle());
}

#[test]
fn flush_through_sink_taking_everything() {
    let mut queue = SendQueue::new();
    let sink = RefCell::new(Vec::new());
    let write = |chunk: &[u8]| -> Result<usize, ()> {
        sink.borrow_mut().extend_from_slice(chunk);
        Ok(chunk.len())
    };
    assert!(queue.flush(&write).is_ok());
    assert!(sink.borrow().is_empty());
    assert_eq!(queue.submit(b"AAAA".to_vec()), Ok(()));
    assert!(queue.flush(&write).is_ok());
    assert_eq!(*sink.borrow(), vec![b'A'; 4]);
    assert!(queue.is_idle());
}
