//! The batching rule of the datagram receive loop.
//!
//! One poll drains as many queued datagrams as the caller's buffers allow:
//! reading only one datagram per wakeup throttles QUIC to one packet per
//! wakeup, which under a burst starves the receiver and shows up as
//! multi-second stalls. The loop itself polls the socket; [`RecvBatch`]
//! decides, from what each poll gave, what the loop does next.

use vstd::prelude::*;

verus! {

/// What one poll of the socket gave.
#[derive(Debug, Clone, Copy, PartialEq, Eq, Structural)]
pub enum RecvEvent {
    /// No datagram is queued (the poll registered the waker).
    Pending,
    /// The socket returned an error.
    Failed,
    /// A datagram was read; `sender_named` tells whether the sender's socket
    /// is bound to a path (an unnamed sender has no address to reply to).
    Datagram { sender_named: bool },
}

/// What the receive loop does before the next poll.
#[derive(Debug, Clone, Copy, PartialEq, Eq, Structural)]
pub enum RecvStep {
    /// Poll the socket, reading into buffer `slot`.
    Receive { slot: usize },
    /// Return `Ready(Ok(count))`.
    Done { count: usize },
}

/// What the receive loop does with the outcome of a poll.
#[derive(Debug, Clone, Copy, PartialEq, Eq, Structural)]
pub enum RecvAction {
    /// Record the datagram just read as entry `slot` of the batch.
    Fill { slot: usize },
    /// Drop the datagram just read and poll again.
    Skip,
    /// Return `Pending`: nothing was received in this poll.
    ReturnPending,
    /// Return the socket's error: nothing was received in this poll.
    ReturnError,
    /// Return `Ready(Ok(count))` with the datagrams received so far.
    Done { count: usize },
}

/// What to do before the next poll, with `filled` of `capacity` datagrams
/// recorded: stop once the batch is full, otherwise read into the next free
/// slot.
pub open spec fn next_step_spec(capacity: nat, filled: nat) -> RecvStep {
    if filled == capacity {
        RecvStep::Done { count: filled as usize }
    } else {
        RecvStep::Receive { slot: filled as usize }
    }
}

/// The number of datagrams recorded, and the decision, after a poll gave
/// `event` with `filled` datagrams recorded before it.
pub open spec fn on_event_spec(filled: nat, event: RecvEvent) -> (nat, RecvAction) {
    match event {
        RecvEvent::Datagram { sender_named } => if sender_named {
            (filled + 1, RecvAction::Fill { slot: filled as usize })
        } else {
            (filled, RecvAction::Skip)
        },
        RecvEvent::Pending => (filled, if filled == 0 {
            RecvAction::ReturnPending
        } else {
            RecvAction::Done { count: filled as usize }
        }),
        RecvEvent::Failed => (filled, if filled == 0 {
            RecvAction::ReturnError
        } else {
            RecvAction::Done { count: filled as usize }
        }),
    }
}

/// What one `poll_recv` call returns.
#[derive(Debug, Clone, Copy, PartialEq, Eq, Structural)]
pub enum PollOutcome {
    /// `Ready(Ok(count))`.
    Ready { count: usize },
    /// `Pending`.
    Pending,
    /// `Ready(Err(_))`, the socket's error.
    Error,
}

/// What a `poll_recv` call returns when the batch holds `filled` of
/// `capacity` datagrams and the polls still to come give `events`, in
/// order; `None` when the call would poll again after the last of them.
pub open spec fn run_poll(capacity: nat, filled: nat, events: Seq<RecvEvent>) -> Option<
    PollOutcome,
>
    decreases events.len(),
{
    match next_step_spec(capacity, filled) {
        RecvStep::Done { count } => Some(PollOutcome::Ready { count }),
        RecvStep::Receive { .. } => {
            if events.len() == 0 {
                None
            } else {
                let (next_filled, action) = on_event_spec(filled, events[0]);
                match action {
                    RecvAction::Fill { .. } => run_poll(capacity, next_filled, events.drop_first()),
                    RecvAction::Skip => run_poll(capacity, next_filled, events.drop_first()),
                    RecvAction::ReturnPending => Some(PollOutcome::Pending),
                    RecvAction::ReturnError => Some(PollOutcome::Error),
                    RecvAction::Done { count } => Some(PollOutcome::Ready { count }),
                }
            }
        },
    }
}

/// The polls of a socket whose receive queue holds datagrams from senders
/// that are named or not (`senders_named`, in order), after which a receive
/// fails (`fails`) or would block.
pub open spec fn queue_events(senders_named: Seq<bool>, fails: bool) -> Seq<RecvEvent> {
    senders_named.map_values(|named: bool| RecvEvent::Datagram { sender_named: named }) + seq![
        if fails {
            RecvEvent::Failed
        } else {
            RecvEvent::Pending
        },
    ]
}

/// The number of datagrams from named senders.
pub open spec fn count_named(senders_named: Seq<bool>) -> nat
    decreases senders_named.len(),
{
    if senders_named.len() == 0 {
        0
    } else {
        (if senders_named[0] {
            1nat
        } else {
            0nat
        }) + count_named(senders_named.drop_first())
    }
}

/// What a poll over a receive queue returns: the datagrams from named
/// senders are delivered until the batch is full or the queue runs out;
/// their number, when positive, is returned, and only when none was
/// delivered does the would-block (`Pending`) or the failure surface.
pub open spec fn drained(capacity: nat, delivered: nat, fails: bool) -> PollOutcome {
    let n = if delivered < capacity {
        delivered
    } else {
        capacity
    };
    if n > 0 {
        PollOutcome::Ready { count: n as usize }
    } else if fails {
        PollOutcome::Error
    } else {
        PollOutcome::Pending
    }
}

/// A whole `poll_recv` drains the receive queue: over buffers for
/// `capacity` datagrams, it returns the smaller of `capacity` and the
/// number of datagrams from named senders in the queue (datagrams from
/// unnamed senders are dropped), and returns `Pending` or the socket's
/// error only when no datagram was delivered. With no room at all it
/// returns a count of 0 at once.
pub proof fn lemma_poll_drains_queue(capacity: nat, senders_named: Seq<bool>, fails: bool)
    requires
        capacity <= usize::MAX,
    ensures
        capacity == 0 ==> run_poll(capacity, 0, queue_events(senders_named, fails)) == Some(
            PollOutcome::Ready { count: 0 },
        ),
        capacity > 0 ==> run_poll(capacity, 0, queue_events(senders_named, fails)) == Some(
            drained(capacity, count_named(senders_named), fails),
        ),
{
    if capacity > 0 {
        lemma_drain_from(capacity, 0, senders_named, fails);
    }
}

proof fn lemma_drain_from(capacity: nat, filled: nat, senders_named: Seq<bool>, fails: bool)
    requires
        0 < capacity <= usize::MAX,
        filled <= capacity,
    ensures
        run_poll(capacity, filled, queue_events(senders_named, fails)) == Some(
            drained(capacity, filled + count_named(senders_named), fails),
        ),
    decreases senders_named.len(),
{
    let events = queue_events(senders_named, fails);
    if filled == capacity {
    } else if senders_named.len() == 0 {
        assert(events.len() == 1);
        assert(events.drop_first().len() == 0);
    } else {
        let rest = senders_named.drop_first();
        assert(events[0] == (RecvEvent::Datagram { sender_named: senders_named[0] }));
        assert(events.drop_first() =~= queue_events(rest, fails));
        let next = if senders_named[0] {
            filled + 1
        } else {
            filled
        };
        lemma_drain_from(capacity, next, rest, fails);
    }
}

/// The buffer slots that a `poll_recv` call records datagrams in, in order,
/// when the batch holds `filled` of `capacity` datagrams and the polls still
/// to come give `events`.
pub open spec fn recorded_slots(capacity: nat, filled: nat, events: Seq<RecvEvent>) -> Seq<usize>
    decreases events.len(),
{
    match next_step_spec(capacity, filled) {
        RecvStep::Done { .. } => Seq::empty(),
        RecvStep::Receive { .. } => {
            if events.len() == 0 {
                Seq::empty()
            } else {
                let (next_filled, action) = on_event_spec(filled, events[0]);
                match action {
                    RecvAction::Fill { slot } => seq![slot] + recorded_slots(
                        capacity,
                        next_filled,
                        events.drop_first(),
                    ),
                    RecvAction::Skip => recorded_slots(capacity, next_filled, events.drop_first()),
                    _ => Seq::empty(),
                }
            }
        },
    }
}

/// Each read goes into the first free buffer and each recorded datagram
/// into the entry of the buffer it was read into: with `filled` of
/// `capacity` datagrams recorded, the next read uses buffer `filled`, and a
/// datagram from a named sender is recorded in entry `filled`.
pub proof fn lemma_next_slot_is_first_free(capacity: nat, filled: nat)
    requires
        filled < capacity <= usize::MAX,
    ensures
        next_step_spec(capacity, filled) == (RecvStep::Receive { slot: filled as usize }),
        on_event_spec(filled, RecvEvent::Datagram { sender_named: true }) == (
            filled + 1,
            RecvAction::Fill { slot: filled as usize },
        ),
        on_event_spec(filled, RecvEvent::Datagram { sender_named: false }).0 == filled,
{
}

/// Over a whole `poll_recv` call the datagrams are recorded in entries
/// 0, 1, 2, ... in order: all distinct, within the capacity, and, when the
/// call returns a count, exactly the entries below that count.
pub proof fn lemma_poll_fills_slots_in_order(capacity: nat, events: Seq<RecvEvent>)
    requires
        capacity <= usize::MAX,
    ensures
        recorded_slots(capacity, 0, events).len() <= capacity,
        forall|i: int|
            0 <= i < recorded_slots(capacity, 0, events).len() ==> #[trigger] recorded_slots(
                capacity,
                0,
                events,
            )[i] == i,
        run_poll(capacity, 0, events) matches Some(PollOutcome::Ready { count }) ==> count
            == recorded_slots(capacity, 0, events).len(),
        run_poll(capacity, 0, events) matches Some(PollOutcome::Pending) ==> recorded_slots(
            capacity,
            0,
            events,
        ).len() == 0,
        run_poll(capacity, 0, events) matches Some(PollOutcome::Error) ==> recorded_slots(
            capacity,
            0,
            events,
        ).len() == 0,
{
    lemma_slots_from(capacity, 0, events);
}

proof fn lemma_slots_from(capacity: nat, filled: nat, events: Seq<RecvEvent>)
    requires
        filled <= capacity <= usize::MAX,
    ensures
        filled + recorded_slots(capacity, filled, events).len() <= capacity,
        forall|i: int|
            0 <= i < recorded_slots(capacity, filled, events).len() ==> #[trigger] recorded_slots(
                capacity,
                filled,
                events,
            )[i] == filled + i,
        run_poll(capacity, filled, events) matches Some(PollOutcome::Ready { count }) ==> count
            == filled + recorded_slots(capacity, filled, events).len(),
        run_poll(capacity, filled, events) matches Some(PollOutcome::Pending) ==> filled == 0
            && recorded_slots(capacity, filled, events).len() == 0,
        run_poll(capacity, filled, events) matches Some(PollOutcome::Error) ==> filled == 0
            && recorded_slots(capacity, filled, events).len() == 0,
    decreases events.len(),
{
    if filled < capacity && events.len() > 0 {
        let rest = events.drop_first();
        match events[0] {
            RecvEvent::Datagram { sender_named } => {
                if sender_named {
                    lemma_slots_from(capacity, filled + 1, rest);
                    let tail = recorded_slots(capacity, filled + 1, rest);
                    let all = recorded_slots(capacity, filled, events);
                    assert(all == seq![filled as usize] + tail);
                    assert forall|i: int| 0 <= i < all.len() implies #[trigger] all[i] == filled
                        + i by {
                        if i > 0 {
                            assert(all[i] == tail[i - 1]);
                        }
                    }
                } else {
                    lemma_slots_from(capacity, filled, rest);
                }
            },
            _ => {},
        }
    }
}

/// The state of one `poll_recv` call: how many datagrams the caller's
/// buffers can take, and how many have been recorded.
#[derive(Debug)]
pub struct RecvBatch {
    capacity: usize,
    filled: usize,
}

impl RecvBatch {
    /// The number of datagrams the batch can take.
    pub closed spec fn capacity(self) -> nat {
        self.capacity as nat
    }

    /// The number of datagrams recorded so far.
    pub closed spec fn filled(self) -> nat {
        self.filled as nat
    }

    /// A batch over buffer, metadata and receive-info slices of the given
    /// lengths: it can take as many datagrams as the shortest of them holds.
    pub fn new(bufs_len: usize, metas_len: usize, infos_len: usize) -> (r: RecvBatch)
        ensures
            r.capacity() <= bufs_len,
            r.capacity() <= metas_len,
            r.capacity() <= infos_len,
            r.capacity() == bufs_len || r.capacity() == metas_len || r.capacity() == infos_len,
            r.filled() == 0,
    {
        let mut capacity = bufs_len;
        if metas_len < capacity {
            capacity = metas_len;
        }
        if infos_len < capacity {
            capacity = infos_len;
        }
        RecvBatch { capacity, filled: 0 }
    }

    /// The number of datagrams recorded so far.
    pub fn filled_count(&self) -> (r: usize)
        ensures
            r == self.filled(),
    {
        self.filled
    }

    /// What to do before the next poll: stop once the batch is full,
    /// otherwise read into the next free slot.
    pub fn next_step(&self) -> (r: RecvStep)
        requires
            self.filled() <= self.capacity(),
        ensures
            r == next_step_spec(self.capacity(), self.filled()),
    {
        if self.filled == self.capacity {
            RecvStep::Done { count: self.filled }
        } else {
            RecvStep::Receive { slot: self.filled }
        }
    }

    /// The decision on the outcome of a poll made after
    /// [`RecvStep::Receive`]:
    ///
    /// - a datagram from a named sender is recorded in the next slot;
    /// - a datagram from an unnamed sender is dropped, and the loop keeps
    ///   draining (returning `Pending` after consuming a datagram would lose
    ///   the waker registration and stall the receiver);
    /// - when the queue is drained or the socket fails, what was received is
    ///   returned; only when nothing was received does the `Pending` or the
    ///   error surface.
    pub fn on_event(&mut self, event: RecvEvent) -> (r: RecvAction)
        requires
            old(self).filled() < old(self).capacity(),
        ensures
            final(self).capacity() == old(self).capacity(),
            final(self).filled() <= final(self).capacity(),
            (final(self).filled(), r) == on_event_spec(old(self).filled(), event),
    {
        match event {
            RecvEvent::Pending => {
                if self.filled == 0 {
                    RecvAction::ReturnPending
                } else {
                    RecvAction::Done { count: self.filled }
                }
            },
            RecvEvent::Failed => {
                if self.filled == 0 {
                    RecvAction::ReturnError
                } else {
                    RecvAction::Done { count: self.filled }
                }
            },
            RecvEvent::Datagram { sender_named } => {
                if sender_named {
                    let slot = self.filled;
                    self.filled = slot + 1;
                    RecvAction::Fill { slot }
                } else {
                    RecvAction::Skip
                }
            },
        }
    }
}

} // verus!
