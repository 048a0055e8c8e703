use vstd::prelude::*;
use std::collections::VecDeque;
use crate::request::SubAgentError;

verus! {

/// Buffer size of a notification channel when none is chosen.
pub const DEFAULT_CHANNEL_CAPACITY: usize = 256;

/// One unit of progress or completion information from a subagent.
#[derive(Debug, Clone)]
pub struct SubAgentNotification {
    /// Identifier assigned to the subagent when it was spawned.
    pub subagent_id: String,
    /// Human-readable progress text.
    pub message: String,
    /// UTC instant of the notification, in milliseconds since the Unix epoch.
    pub timestamp: i64,
    /// True on the final notification of a subagent, and only there.
    pub is_complete: bool,
}

/// Timestamps never decrease along the stream.
pub open spec fn timestamps_ordered(s: Seq<SubAgentNotification>) -> bool {
    forall|i: int, j: int| 0 <= i <= j < s.len() ==> #[trigger] s[i].timestamp <= #[trigger] s[j].timestamp
}

/// No notification but possibly the last one is a completion.
pub open spec fn complete_only_last(s: Seq<SubAgentNotification>) -> bool {
    forall|i: int| 0 <= i < s.len() - 1 ==> !(#[trigger] s[i]).is_complete
}

/// The stream has ended: it is non-empty and its last notification is the completion.
pub open spec fn stream_finished(s: Seq<SubAgentNotification>) -> bool {
    s.len() > 0 && s.last().is_complete
}

/// A stream as a consumer may observe it: ordered in time, with exactly one
/// completion, which is its last element.
pub open spec fn complete_stream(s: Seq<SubAgentNotification>) -> bool {
    &&& timestamps_ordered(s)
    &&& complete_only_last(s)
    &&& stream_finished(s)
}

/// Ordered, bounded, lossless delivery of one subagent's notifications to
/// one consumer. Closes itself once the completion has been sent.
pub struct NotificationChannel {
    buffer: VecDeque<SubAgentNotification>,
    capacity: usize,
    closed: bool,
    received: Ghost<Seq<SubAgentNotification>>,
}

impl NotificationChannel {
    /// Notifications sent and not yet received, oldest first.
    pub closed spec fn pending(&self) -> Seq<SubAgentNotification> {
        self.buffer@
    }

    /// Notifications already handed to the consumer, in order.
    pub closed spec fn received(&self) -> Seq<SubAgentNotification> {
        self.received@
    }

    /// Every notification ever sent, in the order of sending.
    pub open spec fn sent(&self) -> Seq<SubAgentNotification> {
        self.received() + self.pending()
    }

    pub closed spec fn capacity(&self) -> nat {
        self.capacity as nat
    }

    /// The completion has been sent; no further sends are accepted.
    pub closed spec fn is_closed(&self) -> bool {
        self.closed
    }

    pub closed spec fn wf(&self) -> bool {
        &&& self.capacity > 0
        &&& self.buffer@.len() <= self.capacity
        &&& complete_only_last(self.sent())
        &&& (self.closed <==> stream_finished(self.sent()))
    }

    /// An open, empty channel that buffers up to `capacity` notifications.
    pub fn new(capacity: usize) -> (r: Self)
        requires
            capacity > 0,
        ensures
            r.wf(),
            r.capacity() == capacity,
            r.pending() == Seq::<SubAgentNotification>::empty(),
            r.received() == Seq::<SubAgentNotification>::empty(),
            !r.is_closed(),
    {
        NotificationChannel {
            buffer: VecDeque::new(),
            capacity,
            closed: false,
            received: Ghost(Seq::empty()),
        }
    }

    /// An open, empty channel of the default capacity.
    pub fn with_default_capacity() -> (r: Self)
        ensures
            r.wf(),
            r.capacity() == DEFAULT_CHANNEL_CAPACITY,
            r.pending() == Seq::<SubAgentNotification>::empty(),
            r.received() == Seq::<SubAgentNotification>::empty(),
            !r.is_closed(),
    {
        Self::new(DEFAULT_CHANNEL_CAPACITY)
    }

    pub fn len(&self) -> (r: usize)
        requires
            self.wf(),
        ensures
            r == self.pending().len(),
    {
        self.buffer.len()
    }

    pub fn is_closed_now(&self) -> (r: bool)
        requires
            self.wf(),
        ensures
            r == self.is_closed(),
    {
        self.closed
    }

    /// Appends `n` to the stream. Fails with `ChannelClosed` once the
    /// completion was sent, and with `ChannelFull` while the buffer holds
    /// `capacity` notifications; then nothing changes.
    pub fn send(&mut self, n: SubAgentNotification) -> (r: Result<(), SubAgentError>)
        requires
            old(self).wf(),
        ensures
            final(self).wf(),
            final(self).capacity() == old(self).capacity(),
            final(self).received() == old(self).received(),
            old(self).is_closed() ==> r == Err::<(), SubAgentError>(SubAgentError::ChannelClosed),
            !old(self).is_closed() && old(self).pending().len() >= old(self).capacity()
                ==> r == Err::<(), SubAgentError>(SubAgentError::ChannelFull),
            !old(self).is_closed() && old(self).pending().len() < old(self).capacity() ==> r is Ok,
            r is Ok ==> final(self).pending() == old(self).pending().push(n)
                && final(self).is_closed() == n.is_complete,
            r is Err ==> final(self).pending() == old(self).pending()
                && final(self).is_closed() == old(self).is_closed(),
    {
        if self.closed {
            return Err(SubAgentError::ChannelClosed);
        }
        if self.buffer.len() >= self.capacity {
            return Err(SubAgentError::ChannelFull);
        }
        let complete = n.is_complete;
        proof {
            let s = self.sent();
            assert(s.push(n) =~= self.received@ + self.buffer@.push(n));
        }
        self.buffer.push_back(n);
        self.closed = complete;
        Ok(())
    }

    /// Hands the oldest pending notification to the consumer, or `None`
    /// when nothing is pending.
    pub fn receive(&mut self) -> (r: Option<SubAgentNotification>)
        requires
            old(self).wf(),
        ensures
            final(self).wf(),
            final(self).capacity() == old(self).capacity(),
            final(self).is_closed() == old(self).is_closed(),
            final(self).sent() == old(self).sent(),
            old(self).pending().len() == 0 ==> r is None && final(self).pending() == old(self).pending(),
            old(self).pending().len() > 0 ==> r == Some(old(self).pending()[0])
                && final(self).pending() == old(self).pending().drop_first()
                && final(self).received() == old(self).received().push(old(self).pending()[0]),
    {
        let ghost old_buffer = self.buffer@;
        let r = self.buffer.pop_front();
        match r {
            Some(n) => {
                proof {
                    assert(old_buffer =~= seq![n] + self.buffer@);
                    let old_sent = self.received@ + old_buffer;
                    self.received@ = self.received@.push(n);
                    assert(self.sent() =~= old_sent);
                }
                Some(n)
            },
            None => None,
        }
    }

    /// The consumer has seen the whole stream, completion included.
    pub fn is_finished(&self) -> (r: bool)
        requires
            self.wf(),
        ensures
            r <==> self.is_closed() && self.pending().len() == 0,
            r ==> stream_finished(self.received()),
    {
        proof {
            assert(self.sent() =~= self.received() + self.pending());
            if self.buffer@.len() == 0 {
                assert(self.sent() =~= self.received());
            }
        }
        self.closed && self.buffer.len() == 0
    }
}

/// A channel is closed exactly when the stream sent through it has ended;
/// until then it holds no completion, and it never buffers beyond its capacity.
pub proof fn lemma_closed_iff_finished(c: &NotificationChannel)
    requires
        c.wf(),
    ensures
        c.is_closed() <==> stream_finished(c.sent()),
        complete_only_last(c.sent()),
        c.pending().len() <= c.capacity(),
        c.capacity() > 0,
{
}

} // verus!
