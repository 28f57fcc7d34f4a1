use iroh_ipc_transport::recv::{RecvAction, RecvBatch, RecvEvent, RecvStep};

#[test]
fn capacity_is_the_shortest_slice() {
    let b = RecvBatch::new(32, 5, 9);
    assert_eq!(b.next_step(), RecvStep::Receive { slot: 0 });
    assert_eq!(b.filled_count(), 0);
    let mut b = RecvBatch::new(3, 1, 2);
    assert_eq!(
        b.on_event(RecvEvent::Datagram { sender_named: true }),
        RecvAction::Fill { slot: 0 }
    );
    assert_eq!(b.next_step(), RecvStep::Done { count: 1 });
}

#[test]
fn empty_batch_returns_zero_at_once() {
    assert_eq!(RecvBatch::new(0, 4, 4).next_step(), RecvStep::Done { count: 0 });
    assert_eq!(RecvBatch::new(4, 4, 0).next_step(), RecvStep::Done { count: 0 });
}

#[test]
fn pending_with_nothing_received_stays_pending() {
    let mut b = RecvBatch::new(4, 4, 4);
    assert_eq!(b.on_event(RecvEvent::Pending), RecvAction::ReturnPending);
}

#[test]
fn error_with_nothing_received_is_returned() {
    let mut b = RecvBatch::new(4, 4, 4);
    assert_eq!(b.on_event(RecvEvent::Failed), RecvAction::ReturnError);
}

#[test]
fn drained_queue_returns_what_was_received() {
    let mut b = RecvBatch::new(4, 4, 4);
    assert_eq!(
        b.on_event(RecvEvent::Datagram { sender_named: true }),
        RecvAction::Fill { slot: 0 }
    );
    assert_eq!(b.next_step(), RecvStep::Receive { slot: 1 });
    assert_eq!(
        b.on_event(RecvEvent::Datagram { sender_named: true }),
        RecvAction::Fill { slot: 1 }
    );
    assert_eq!(b.next_step(), RecvStep::Receive { slot: 2 });
    assert_eq!(b.on_event(RecvEvent::Pending), RecvAction::Done { count: 2 });
}

#[test]
fn error_after_datagrams_returns_them() {
    let mut b = RecvBatch::new(4, 4, 4);
    b.on_event(RecvEvent::Datagram { sender_named: true });
    assert_eq!(b.on_event(RecvEvent::Failed), RecvAction::Done { count: 1 });
}

#[test]
fn unnamed_senders_are_skipped_and_draining_goes_on() {
    let mut b = RecvBatch::new(2, 2, 2);
    assert_eq!(b.on_event(RecvEvent::Datagram { sender_named: false }), RecvAction::Skip);
    assert_eq!(b.next_step(), RecvStep::Receive { slot: 0 });
    assert_eq!(b.filled_count(), 0);
    assert_eq!(
        b.on_event(RecvEvent::Datagram { sender_named: true }),
        RecvAction::Fill { slot: 0 }
    );
    assert_eq!(b.on_event(RecvEvent::Datagram { sender_named: false }), RecvAction::Skip);
    assert_eq!(
        b.on_event(RecvEvent::Datagram { sender_named: true }),
        RecvAction::Fill { slot: 1 }
    );
    assert_eq!(b.next_step(), RecvStep::Done { count: 2 });
    // A skipped datagram with nothing else received and then a drained queue
    // still reports Pending.
    let mut b = RecvBatch::new(2, 2, 2);
    b.on_event(RecvEvent::Datagram { sender_named: false });
    assert_eq!(b.on_event(RecvEvent::Pending), RecvAction::ReturnPending);
}

/// Drives one poll over a receive queue of datagrams (named sender or not),
/// after which a receive fails or would block, as the receive loop does.
fn drive(capacity: (usize, usize, usize), queue: &[bool], fails: bool) -> (Result<usize, bool>, Vec<usize>) {
    let mut batch = RecvBatch::new(capacity.0, capacity.1, capacity.2);
    let mut next = 0;
    let mut filled_slots = Vec::new();
    loop {
        match batch.next_step() {
            RecvStep::Done { count } => return (Ok(count), filled_slots),
            RecvStep::Receive { .. } => {}
        }
        let event = if next < queue.len() {
            next += 1;
            RecvEvent::Datagram { sender_named: queue[next - 1] }
        } else if fails {
            RecvEvent::Failed
        } else {
            RecvEvent::Pending
        };
        match batch.on_event(event) {
            RecvAction::Fill { slot } => filled_slots.push(slot),
            RecvAction::Skip => {}
            RecvAction::ReturnPending => return (Err(false), filled_slots),
            RecvAction::ReturnError => return (Err(true), filled_slots),
            RecvAction::Done { count } => return (Ok(count), filled_slots),
        }
    }
}

#[test]
fn a_poll_drains_the_queue_up_to_capacity() {
    let queue = [false, true, true, false, true, true];
    assert_eq!(drive((3, 8, 8), &queue, false), (Ok(3), vec![0, 1, 2]));
    assert_eq!(drive((8, 8, 8), &queue, false), (Ok(4), vec![0, 1, 2, 3]));
    assert_eq!(drive((8, 8, 8), &queue, true), (Ok(4), vec![0, 1, 2, 3]));
    assert_eq!(drive((8, 8, 8), &[false, false], false), (Err(false), vec![]));
    assert_eq!(drive((8, 8, 8), &[false, false], true), (Err(true), vec![]));
    assert_eq!(drive((0, 8, 8), &queue, true), (Ok(0), vec![]));
}
