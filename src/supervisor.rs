use vstd::prelude::*;
use vstd::string::StringExecFns;
use crate::notification::{
    NotificationChannel, SubAgentNotification, timestamps_ordered, complete_only_last, stream_finished,
    complete_stream,
};
use crate::request::{SpawnSubAgentArgs, SubAgentError};
use crate::runner::{RunState, RunnerAction, RunnerEvent, SubAgentRunner};

verus! {

/// The decimal digits of `n`, most significant first, without sign or padding.
pub open spec fn decimal(n: nat) -> Seq<char>
    decreases n,
{
    if n < 10 {
        seq!["0123456789"@[n as int]]
    } else {
        decimal(n / 10).push("0123456789"@[(n % 10) as int])
    }
}

/// The printed form of subagent number `n`.
pub open spec fn label_of(n: u64) -> Seq<char> {
    "sa-"@ + decimal(n as nat)
}

/// Relies on `u64`'s `Display`, through `ToString::to_string`: it prints
/// plain decimal digits, without sign or padding.
#[verifier::external_body]
fn decimal_string(n: u64) -> (r: String)
    ensures
        r@ == decimal(n as nat),
{
    n.to_string()
}

/// The printed form of subagent number `n`, as notifications carry it.
pub fn label(n: u64) -> (r: String)
    ensures
        r@ == label_of(n),
{
    let digits = decimal_string(n);
    String::from_str("sa-").concat(digits.as_str())
}

/// One registered subagent: its run and the stream to its consumer.
pub struct Entry {
    id: u64,
    runner: SubAgentRunner,
    channel: NotificationChannel,
}

impl Entry {
    pub closed spec fn id(&self) -> u64 {
        self.id
    }

    pub closed spec fn runner(&self) -> SubAgentRunner {
        self.runner
    }

    pub closed spec fn channel(&self) -> NotificationChannel {
        self.channel
    }

    pub open spec fn state(&self) -> RunState {
        self.runner().state()
    }

    pub open spec fn is_active(&self) -> bool {
        !self.state().spec_is_terminal()
    }

    /// The run and its stream agree: the stream holds exactly what the run
    /// emitted, and a run that goes on keeps room for its completion.
    pub open spec fn wf(&self, capacity: nat) -> bool {
        &&& self.runner().wf()
        &&& self.channel().wf()
        &&& self.runner().id() == label_of(self.id())
        &&& self.channel().capacity() == capacity
        &&& self.channel().sent() == self.runner().emitted()
        &&& (self.is_active() ==> self.channel().pending().len() < capacity)
    }
}

/// Number of runs in `s` that have not ended.
pub open spec fn count_active(s: Seq<Entry>) -> nat
    decreases s.len(),
{
    if s.len() == 0 {
        0
    } else {
        count_active(s.drop_last()) + if s.last().is_active() { 1nat } else { 0 }
    }
}

/// An entry stays registered at `now`: its run goes on, or it ended less
/// than `retention_millis` ago.
pub open spec fn retained(e: Entry, now: i64, retention_millis: i64) -> bool {
    e.is_active() || now - e.runner().last_timestamp() < retention_millis
}

pub open spec fn retained_at(now: i64, retention_millis: i64) -> spec_fn(Entry) -> bool {
    |e: Entry| retained(e, now, retention_millis)
}

/// Owns the registry of subagents: admits spawns up to a concurrency limit,
/// routes engine reports and cancellations to runs, hands out their
/// notifications, and reclaims ended runs after a retention window.
pub struct SubAgentSupervisor {
    entries: Vec<Entry>,
    next_id: u64,
    max_concurrent: usize,
    default_max_turns: usize,
    channel_capacity: usize,
    retention_millis: i64,
}

impl SubAgentSupervisor {
    /// The registered subagents, oldest first.
    pub closed spec fn entries(&self) -> Seq<Entry> {
        self.entries@
    }

    /// The number the next spawned subagent receives.
    pub closed spec fn next_id(&self) -> u64 {
        self.next_id
    }

    pub closed spec fn max_concurrent(&self) -> nat {
        self.max_concurrent as nat
    }

    pub closed spec fn default_max_turns(&self) -> nat {
        self.default_max_turns as nat
    }

    pub closed spec fn channel_capacity(&self) -> nat {
        self.channel_capacity as nat
    }

    pub closed spec fn retention_millis(&self) -> i64 {
        self.retention_millis
    }

    /// Subagent `id` is registered.
    pub open spec fn has(&self, id: u64) -> bool {
        exists|i: int| 0 <= i < self.entries().len() && (#[trigger] self.entries()[i]).id() == id
    }

    /// Where subagent `id` stands in the registry, when it is registered.
    pub open spec fn position(&self, id: u64) -> int {
        choose|i: int| 0 <= i < self.entries().len() && (#[trigger] self.entries()[i]).id() == id
    }

    /// The registered subagent `id`.
    pub open spec fn entry(&self, id: u64) -> Entry {
        self.entries()[self.position(id)]
    }

    /// Runs that have not ended.
    pub open spec fn active_count(&self) -> nat {
        count_active(self.entries())
    }

    pub open spec fn wf(&self) -> bool {
        &&& self.default_max_turns() > 0
        &&& self.channel_capacity() >= 2
        &&& self.retention_millis() >= 0
        &&& forall|i: int| 0 <= i < self.entries().len()
            ==> (#[trigger] self.entries()[i]).wf(self.channel_capacity())
                && self.entries()[i].id() < self.next_id()
        &&& forall|i: int, j: int| 0 <= i < j < self.entries().len()
            ==> (#[trigger] self.entries()[i]).id() < (#[trigger] self.entries()[j]).id()
    }

    /// The configuration and the numbering are those of `other`.
    pub open spec fn same_config(&self, other: &Self) -> bool {
        &&& self.next_id() == other.next_id()
        &&& self.max_concurrent() == other.max_concurrent()
        &&& self.default_max_turns() == other.default_max_turns()
        &&& self.channel_capacity() == other.channel_capacity()
        &&& self.retention_millis() == other.retention_millis()
    }

    /// `self` holds `other`'s registry with only the entry at `p` changed,
    /// keeping its id.
    pub open spec fn changed_only_at(&self, other: &Self, p: int) -> bool {
        &&& self.entries().len() == other.entries().len()
        &&& self.entries()[p].id() == other.entries()[p].id()
        &&& forall|j: int| 0 <= j < self.entries().len() && j != p
            ==> #[trigger] self.entries()[j] == other.entries()[j]
    }

    /// An empty registry admitting up to `max_concurrent` running subagents.
    /// Requests without a turn bound run at most `default_max_turns` turns;
    /// each stream buffers `channel_capacity` notifications; ended runs stay
    /// readable for `retention_millis`. Numbering starts at 1.
    pub fn new(max_concurrent: usize, default_max_turns: usize, channel_capacity: usize, retention_millis: i64) -> (r: Self)
        requires
            default_max_turns > 0,
            channel_capacity >= 2,
            retention_millis >= 0,
        ensures
            r.wf(),
            r.entries().len() == 0,
            r.next_id() == 1,
            r.max_concurrent() == max_concurrent,
            r.default_max_turns() == default_max_turns,
            r.channel_capacity() == channel_capacity,
            r.retention_millis() == retention_millis,
    {
        SubAgentSupervisor {
            entries: Vec::new(),
            next_id: 1,
            max_concurrent,
            default_max_turns,
            channel_capacity,
            retention_millis,
        }
    }

    /// The number of runs that have not ended.
    pub fn active(&self) -> (r: usize)
        requires
            self.wf(),
        ensures
            r == self.active_count(),
    {
        let mut n: usize = 0;
        let mut i: usize = 0;
        while i < self.entries.len()
            invariant
                i <= self.entries@.len(),
                n == count_active(self.entries@.subrange(0, i as int)),
                n <= i,
            decreases self.entries@.len() - i,
        {
            proof {
                let s = self.entries@.subrange(0, i as int + 1);
                assert(s.drop_last() =~= self.entries@.subrange(0, i as int));
            }
            if !self.entries[i].runner.current_state().is_terminal() {
                n = n + 1;
            }
            i = i + 1;
        }
        proof {
            assert(self.entries@.subrange(0, i as int) =~= self.entries@);
        }
        n
    }

    /// Registers a run of `request` under a fresh number and starts it at
    /// `now`: the driver then submits the request's message as the first
    /// turn. Fails with `InvalidRequest` on an invalid request, and with
    /// `CapacityExceeded` when `max_concurrent` runs have not ended (or the
    /// numbers are used up); a failed spawn registers nothing.
    pub fn spawn(&mut self, request: &SpawnSubAgentArgs, now: i64) -> (r: Result<u64, SubAgentError>)
        requires
            old(self).wf(),
        ensures
            final(self).wf(),
            final(self).max_concurrent() == old(self).max_concurrent(),
            final(self).default_max_turns() == old(self).default_max_turns(),
            final(self).channel_capacity() == old(self).channel_capacity(),
            final(self).retention_millis() == old(self).retention_millis(),
            !request.is_valid() ==> r == Err::<u64, SubAgentError>(SubAgentError::InvalidRequest),
            request.is_valid() && (old(self).active_count() >= old(self).max_concurrent()
                || old(self).next_id() == u64::MAX)
                ==> r == Err::<u64, SubAgentError>(SubAgentError::CapacityExceeded),
            request.is_valid() && old(self).active_count() < old(self).max_concurrent()
                && old(self).next_id() < u64::MAX ==> r is Ok,
            r is Err ==> final(self).entries() == old(self).entries()
                && final(self).next_id() == old(self).next_id(),
            r matches Ok(id) ==> {
                &&& id == old(self).next_id()
                &&& !old(self).has(id)
                &&& final(self).next_id() == id + 1
                &&& final(self).entries().drop_last() == old(self).entries()
                &&& final(self).entries().len() == old(self).entries().len() + 1
                &&& final(self).entries().last().id() == id
                &&& final(self).entries().last().runner().id() == label_of(id)
                &&& final(self).entries().last().state() == RunState::Running
                &&& final(self).entries().last().runner().turns() == 0
                &&& final(self).entries().last().runner().started_at() == now
                &&& final(self).entries().last().runner().max_turns() == (match request.max_turns {
                    Some(n) => n as nat,
                    None => old(self).default_max_turns(),
                })
                &&& final(self).entries().last().runner().timeout_seconds() == request.timeout_seconds
                &&& final(self).entries().last().channel().sent().len() == 0
                &&& final(self).active_count() == old(self).active_count() + 1
            },
    {
        if request.validate().is_err() {
            return Err(SubAgentError::InvalidRequest);
        }
        let active = self.active();
        if active >= self.max_concurrent || self.next_id == u64::MAX {
            return Err(SubAgentError::CapacityExceeded);
        }
        let id = self.next_id;
        let mut runner = SubAgentRunner::new(label(id), request, self.default_max_turns, now);
        runner.start(now);
        let channel = NotificationChannel::new(self.channel_capacity);
        let entry = Entry { id, runner, channel };
        proof {
            assert(entry.channel().sent() =~= entry.runner().emitted());
            if self.has(id) {
                let i = choose|i: int| 0 <= i < self.entries().len() && (#[trigger] self.entries()[i]).id() == id;
                assert(self.entries()[i].id() < self.next_id());
            }
        }
        let ghost old_entries = self.entries@;
        self.entries.push(entry);
        self.next_id = id + 1;
        proof {
            assert(self.entries@.drop_last() =~= old_entries);
        }
        Ok(id)
    }

    /// Applies the engine's or the caller's `event` at `now` to subagent `id`
    /// and says what its driver does next; the notifications the run emits
    /// join its stream. Fails with `UnknownSubAgent` for an unregistered id,
    /// and with `ChannelFull` for a finished turn while the stream lacks room
    /// for two notifications: the driver reports it again once the consumer
    /// has drained the stream. A run that has ended ignores every event.
    pub fn report(&mut self, id: u64, event: RunnerEvent, now: i64) -> (r: Result<RunnerAction, SubAgentError>)
        requires
            old(self).wf(),
        ensures
            final(self).wf(),
            final(self).same_config(old(self)),
            !old(self).has(id) ==> r == Err::<RunnerAction, SubAgentError>(SubAgentError::UnknownSubAgent),
            old(self).has(id) && !old(self).entry(id).is_active()
                ==> r == Ok::<RunnerAction, SubAgentError>(RunnerAction::Idle),
            old(self).has(id) && old(self).entry(id).is_active() && event is TurnSucceeded
                && old(self).entry(id).channel().pending().len() + 2 > old(self).channel_capacity()
                ==> r == Err::<RunnerAction, SubAgentError>(SubAgentError::ChannelFull),
            old(self).has(id) && old(self).entry(id).is_active()
                && !(event is TurnSucceeded && old(self).entry(id).channel().pending().len() + 2
                    > old(self).channel_capacity())
                ==> r == Ok::<RunnerAction, SubAgentError>(old(self).entry(id).runner().next_action(event, now)),
            r is Err || !old(self).entry(id).is_active() ==> final(self).entries() == old(self).entries(),
            r is Ok && old(self).entry(id).is_active() ==> ({
                let p = old(self).position(id);
                let before = old(self).entries()[p];
                let after = final(self).entries()[p];
                &&& final(self).changed_only_at(old(self), p)
                &&& after.state() == before.runner().next_state(event, now)
                &&& after.runner().turns() == before.runner().turns()
                    + (if before.runner().reports_turn(event) { 1int } else { 0 })
                &&& after.channel().received() == before.channel().received()
                &&& after.channel().pending().len() == before.channel().pending().len()
                    + (if before.runner().reports_turn(event) { 1int } else { 0 })
                    + (if before.runner().ends_run(event, now) { 1int } else { 0 })
                &&& after.channel().pending().subrange(0, before.channel().pending().len() as int)
                    == before.channel().pending()
                &&& before.runner().ends_run(event, now) ==> after.channel().pending().last().is_complete
                    && after.channel().pending().last().message@ == after.state().spec_summary()
            }),
    {
        let found = self.find(id);
        let i = match found {
            None => {
                return Err(SubAgentError::UnknownSubAgent);
            },
            Some(i) => i,
        };
        if self.entries[i].runner.current_state().is_terminal() {
            return Ok(RunnerAction::Idle);
        }
        if let RunnerEvent::TurnSucceeded { .. } = event {
            if self.entries[i].channel.len() > self.channel_capacity - 2 {
                return Err(SubAgentError::ChannelFull);
            }
        }
        let ghost old_s = *self;
        proof {
            assert(old_s.entries()[i as int].wf(old_s.channel_capacity()));
        }
        let mut e = self.entries.remove(i);
        let ghost before = e;
        proof {
            crate::runner::lemma_stream_prefix_ordered(&before.runner);
            crate::notification::lemma_closed_iff_finished(&before.channel);
        }
        let out = e.runner.step(event, now);
        let action = out.action;
        let mut notes = out.notifications;
        let ghost all = notes@;
        let ghost stepped = e.runner;
        proof {
            crate::runner::lemma_stream_prefix_ordered(&e.runner);
            assert(e.runner.emitted() == before.runner.emitted() + all);
        }
        while notes.len() > 0
            invariant
                e.runner.wf(),
                e.channel.wf(),
                e.id == before.id,
                e.runner == stepped,
                e.runner.emitted() == before.runner.emitted() + all,
                crate::notification::complete_only_last(e.runner.emitted()),
                all.len() <= 2,
                notes@.len() <= all.len(),
                notes@ == all.subrange(all.len() - notes@.len(), all.len() as int),
                e.channel.capacity() == before.channel.capacity(),
                e.channel.received() == before.channel.received(),
                e.channel.pending() == before.channel.pending() + all.subrange(0, all.len() - notes@.len()),
                before.channel.pending().len() + all.len() <= before.channel.capacity(),
                notes@.len() > 0 ==> !e.channel.is_closed(),
                before.channel.sent() == before.runner.emitted(),
            decreases notes@.len(),
        {
            let ghost k = all.len() - notes@.len();
            let n = notes.remove(0);
            let sent = e.channel.send(n);
            proof {
                assert(n == all[k]);
                assert(notes@ =~= all.subrange(k + 1, all.len() as int));
                assert(e.channel.pending() =~= before.channel.pending() + all.subrange(0, k + 1));
                if notes@.len() > 0 {
                    let em = e.runner.emitted();
                    assert(em[before.runner.emitted().len() + k] == n);
                }
            }
        }
        proof {
            if e.runner.state() is Running || e.runner.state() is Created {
                assert(!before.runner.ends_run(event, now));
                assert(e.channel.pending().len() < e.channel.capacity());
            }
            assert(all.subrange(0, all.len() as int) =~= all);
            assert(e.channel.sent() =~= e.runner.emitted());
            assert(e.channel.pending().subrange(0, before.channel.pending().len() as int)
                =~= before.channel.pending());
        }
        self.entries.insert(i, e);
        proof {
            assert(self.entries@ =~= old_s.entries@.update(i as int, e));
            lemma_replace_keeps_wf(&old_s, self, i as int);
        }
        Ok(action)
    }

    /// Cancels subagent `id` at `now`. A run that has not ended ends as
    /// `Cancelled`, and its stream receives the completion. Cancelling a run
    /// that has ended changes nothing; so does an unknown id, which fails with
    /// `UnknownSubAgent` only when `strict` is set.
    pub fn cancel(&mut self, id: u64, now: i64, strict: bool) -> (r: Result<(), SubAgentError>)
        requires
            old(self).wf(),
        ensures
            final(self).wf(),
            final(self).same_config(old(self)),
            !old(self).has(id) ==> final(self).entries() == old(self).entries()
                && (strict ==> r == Err::<(), SubAgentError>(SubAgentError::UnknownSubAgent))
                && (!strict ==> r is Ok),
            old(self).has(id) ==> r is Ok,
            old(self).has(id) && !old(self).entry(id).is_active() ==> final(self).entries() == old(self).entries(),
            old(self).has(id) && old(self).entry(id).is_active() ==> ({
                let p = old(self).position(id);
                let before = old(self).entries()[p];
                let after = final(self).entries()[p];
                &&& final(self).changed_only_at(old(self), p)
                &&& after.state() == RunState::Cancelled
                &&& after.runner().turns() == before.runner().turns()
                &&& after.channel().received() == before.channel().received()
                &&& after.channel().pending().len() == before.channel().pending().len() + 1
                &&& after.channel().pending().drop_last() == before.channel().pending()
                &&& after.channel().pending().last().is_complete
                &&& after.channel().pending().last().message@ == RunState::Cancelled.spec_summary()
            }),
    {
        if self.find(id).is_none() {
            if strict {
                return Err(SubAgentError::UnknownSubAgent);
            }
            return Ok(());
        }
        let ghost old_s = *self;
        proof {
            if old_s.entry(id).is_active() {
                crate::runner::lemma_cancel(&old_s.entry(id).runner(), now);
            }
        }
        let res = self.report(id, RunnerEvent::Cancel, now);
        proof {
            if old_s.entry(id).is_active() {
                let p = old_s.position(id);
                let after = self.entries()[p];
                assert(after.channel().pending().drop_last()
                    =~= after.channel().pending().subrange(0, old_s.entries()[p].channel().pending().len() as int));
            }
        }
        match res {
            Ok(_) => Ok(()),
            Err(e) => Err(e),
        }
    }

    /// The state of subagent `id`.
    pub fn state_of(&self, id: u64) -> (r: Result<RunState, SubAgentError>)
        requires
            self.wf(),
        ensures
            !self.has(id) ==> r == Err::<RunState, SubAgentError>(SubAgentError::UnknownSubAgent),
            self.has(id) ==> r == Ok::<RunState, SubAgentError>(self.entry(id).state()),
    {
        match self.find(id) {
            None => Err(SubAgentError::UnknownSubAgent),
            Some(i) => Ok(self.entries[i].runner.current_state()),
        }
    }

    /// Hands the oldest undelivered notification of subagent `id` to its
    /// consumer, or `None` when none is waiting.
    pub fn receive(&mut self, id: u64) -> (r: Result<Option<SubAgentNotification>, SubAgentError>)
        requires
            old(self).wf(),
        ensures
            final(self).wf(),
            final(self).same_config(old(self)),
            !old(self).has(id) ==> final(self).entries() == old(self).entries()
                && r == Err::<Option<SubAgentNotification>, SubAgentError>(SubAgentError::UnknownSubAgent),
            old(self).has(id) ==> ({
                let p = old(self).position(id);
                let before = old(self).entries()[p];
                let after = final(self).entries()[p];
                &&& final(self).changed_only_at(old(self), p)
                &&& after.runner() == before.runner()
                &&& after.channel().sent() == before.channel().sent()
                &&& (before.channel().pending().len() == 0 ==> r == Ok::<Option<SubAgentNotification>, SubAgentError>(None)
                    && after.channel().pending() == before.channel().pending())
                &&& (before.channel().pending().len() > 0 ==>
                    r == Ok::<Option<SubAgentNotification>, SubAgentError>(Some(before.channel().pending()[0]))
                    && after.channel().pending() == before.channel().pending().drop_first())
            }),
    {
        let i = match self.find(id) {
            None => {
                return Err(SubAgentError::UnknownSubAgent);
            },
            Some(i) => i,
        };
        let ghost old_s = *self;
        proof {
            assert(old_s.entries()[i as int].wf(old_s.channel_capacity()));
        }
        let mut e = self.entries.remove(i);
        let n = e.channel.receive();
        self.entries.insert(i, e);
        proof {
            assert(self.entries@ =~= old_s.entries@.update(i as int, e));
            lemma_replace_keeps_wf(&old_s, self, i as int);
        }
        Ok(n)
    }

    /// Hands every undelivered notification of subagent `id` to its consumer,
    /// oldest first.
    pub fn stream_notifications(&mut self, id: u64) -> (r: Result<Vec<SubAgentNotification>, SubAgentError>)
        requires
            old(self).wf(),
        ensures
            final(self).wf(),
            final(self).same_config(old(self)),
            !old(self).has(id) ==> final(self).entries() == old(self).entries()
                && r == Err::<Vec<SubAgentNotification>, SubAgentError>(SubAgentError::UnknownSubAgent),
            old(self).has(id) ==> ({
                let p = old(self).position(id);
                let before = old(self).entries()[p];
                let after = final(self).entries()[p];
                &&& final(self).changed_only_at(old(self), p)
                &&& after.runner() == before.runner()
                &&& after.channel().sent() == before.channel().sent()
                &&& after.channel().pending().len() == 0
                &&& r matches Ok(v) && v@ == before.channel().pending()
            }),
    {
        let i = match self.find(id) {
            None => {
                return Err(SubAgentError::UnknownSubAgent);
            },
            Some(i) => i,
        };
        let ghost old_s = *self;
        proof {
            assert(old_s.entries()[i as int].wf(old_s.channel_capacity()));
        }
        let mut e = self.entries.remove(i);
        let ghost before = e;
        let mut out: Vec<SubAgentNotification> = Vec::new();
        loop
            invariant
                e.channel.wf(),
                e.id == before.id,
                e.runner == before.runner,
                e.channel.sent() == before.channel.sent(),
                e.channel.capacity() == before.channel.capacity(),
                e.channel.is_closed() == before.channel.is_closed(),
                before.channel.pending() == out@ + e.channel.pending(),
            ensures
                e.channel.wf(),
                e.id == before.id,
                e.runner == before.runner,
                e.channel.sent() == before.channel.sent(),
                e.channel.capacity() == before.channel.capacity(),
                e.channel.pending().len() == 0,
                before.channel.pending() == out@ + e.channel.pending(),
            decreases e.channel.pending().len(),
        {
            let ghost pend = e.channel.pending();
            match e.channel.receive() {
                None => {
                    break;
                },
                Some(n) => {
                    out.push(n);
                    proof {
                        assert(pend =~= seq![n] + e.channel.pending());
                        assert(before.channel.pending() =~= out@ + e.channel.pending());
                    }
                },
            }
        }
        proof {
            assert(out@ =~= before.channel.pending());
        }
        self.entries.insert(i, e);
        proof {
            assert(self.entries@ =~= old_s.entries@.update(i as int, e));
            lemma_replace_keeps_wf(&old_s, self, i as int);
        }
        Ok(out)
    }

    /// Removes, at `now`, every run that ended at least `retention_millis`
    /// ago; the others stay, in order.
    pub fn reclaim(&mut self, now: i64)
        requires
            old(self).wf(),
        ensures
            final(self).wf(),
            final(self).same_config(old(self)),
            final(self).entries() == old(self).entries().filter(retained_at(now, old(self).retention_millis())),
    {
        let ghost old_s = *self;
        let ghost all = self.entries@;
        let ghost pred = retained_at(now, self.retention_millis);
        let mut rest: Vec<Entry> = Vec::new();
        std::mem::swap(&mut self.entries, &mut rest);
        proof {
            assert(all.subrange(0, 0).filter(pred) =~= Seq::<Entry>::empty()) by {
                reveal(Seq::filter);
            }
            assert(all.subrange(0, all.len() as int) =~= all);
        }
        while rest.len() > 0
            invariant
                self.wf(),
                self.same_config(&old_s),
                old_s.wf(),
                all == old_s.entries(),
                pred == retained_at(now, old_s.retention_millis()),
                rest@.len() <= all.len(),
                rest@ == all.subrange(all.len() - rest@.len(), all.len() as int),
                self.entries() == all.subrange(0, all.len() - rest@.len()).filter(pred),
                forall|j: int, m: int| 0 <= j < self.entries().len() && all.len() - rest@.len() <= m < all.len()
                    ==> (#[trigger] self.entries()[j]).id() < (#[trigger] all[m]).id(),
            decreases rest@.len(),
        {
            let ghost k = all.len() - rest@.len();
            let e = rest.remove(0);
            proof {
                assert(e == all[k]);
                assert(rest@ =~= all.subrange(k + 1, all.len() as int));
                assert(all.subrange(0, k + 1) =~= all.subrange(0, k).push(e));
                all.subrange(0, k).lemma_filter_push(e, pred);
                assert(old_s.entries()[k].wf(old_s.channel_capacity()));
                assert(e.id() < old_s.next_id());
                assert forall|m: int| k < m < all.len() implies e.id() < (#[trigger] all[m]).id() by {
                    assert(old_s.entries()[k].id() < old_s.entries()[m].id());
                }
            }
            let keep = !e.runner.current_state().is_terminal()
                || (now as i128) - (e.runner.last_stamp() as i128) < (self.retention_millis as i128);
            if keep {
                let ghost before = self.entries@;
                self.entries.push(e);
                proof {
                    assert(self.entries@ =~= before.push(e));
                    assert forall|j: int, m: int| 0 <= j < self.entries().len() && k + 1 <= m < all.len()
                        implies (#[trigger] self.entries()[j]).id() < (#[trigger] all[m]).id() by {
                        if j < before.len() {
                            assert(before[j].id() < all[m].id());
                        }
                    }
                }
            }
        }
    }

    /// Finds subagent `id` in the registry.
    fn find(&self, id: u64) -> (r: Option<usize>)
        requires
            self.wf(),
        ensures
            r is None <==> !self.has(id),
            r matches Some(i) ==> i == self.position(id) && i < self.entries().len()
                && self.entries()[i as int].id() == id,
    {
        let mut i: usize = 0;
        while i < self.entries.len()
            invariant
                self.wf(),
                i <= self.entries@.len(),
                forall|k: int| 0 <= k < i ==> (#[trigger] self.entries@[k]).id != id,
            decreases self.entries@.len() - i,
        {
            if self.entries[i].id == id {
                proof {
                    let p = self.position(id);
                    assert(self.entries()[i as int].id() == id);
                    assert(self.has(id));
                    assert(0 <= p < self.entries().len() && self.entries()[p].id() == id);
                    if p != i as int {
                        if p < i as int {
                            assert(self.entries()[p].id() != self.entries()[i as int].id());
                        } else {
                            assert(self.entries()[i as int].id() != self.entries()[p].id());
                        }
                    }
                }
                return Some(i);
            }
            i = i + 1;
        }
        None
    }
}

/// The stream of every registered subagent is ordered in time and holds a
/// completion at most once, as its last element; once the run has ended the
/// stream is non-empty and ends with its completion.
pub proof fn lemma_registered_stream(s: &SubAgentSupervisor, id: u64)
    requires
        s.wf(),
        s.has(id),
    ensures
        timestamps_ordered(s.entry(id).channel().sent()),
        complete_only_last(s.entry(id).channel().sent()),
        !s.entry(id).is_active() ==> complete_stream(s.entry(id).channel().sent()),
        s.entry(id).is_active() ==> !stream_finished(s.entry(id).channel().sent()),
{
    let p = s.position(id);
    assert(s.entries()[p].wf(s.channel_capacity()));
    crate::runner::lemma_stream_prefix_ordered(&s.entry(id).runner());
}

/// The entry at `p` is replaced by `e`, which keeps its id and is well formed:
/// the registry stays well formed.
proof fn lemma_replace_keeps_wf(old_s: &SubAgentSupervisor, new_s: &SubAgentSupervisor, p: int)
    requires
        old_s.wf(),
        0 <= p < old_s.entries().len(),
        new_s.same_config(old_s),
        new_s.changed_only_at(old_s, p),
        new_s.entries()[p].wf(new_s.channel_capacity()),
    ensures
        new_s.wf(),
{
    assert forall|i: int, j: int| 0 <= i < j < new_s.entries().len()
        implies (#[trigger] new_s.entries()[i]).id() < (#[trigger] new_s.entries()[j]).id() by {
        assert(old_s.entries()[i].id() < old_s.entries()[j].id());
    }
    assert forall|i: int| 0 <= i < new_s.entries().len()
        implies (#[trigger] new_s.entries()[i]).wf(new_s.channel_capacity())
            && new_s.entries()[i].id() < new_s.next_id() by {
        assert(old_s.entries()[i].id() < old_s.next_id());
    }
}

} // verus!
