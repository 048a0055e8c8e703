use vstd::prelude::*;
use vstd::string::StringExecFns;
use crate::notification::{
    SubAgentNotification, timestamps_ordered, complete_only_last, stream_finished,
    complete_stream,
};
use crate::request::SpawnSubAgentArgs;

verus! {

/// Transient engine errors tolerated on one turn before the run fails.
pub const MAX_RETRIES: u32 = 2;

/// Lifecycle of one subagent run.
#[derive(Debug, Clone, Copy, PartialEq, Eq, Structural)]
pub enum RunState {
    Created,
    Running,
    /// The turn bound was reached.
    Completed,
    /// The wall-clock budget ran out between turns.
    TimedOut,
    /// The caller cancelled the run.
    Cancelled,
    /// The engine failed and retries did not help.
    Failed,
}

impl RunState {
    pub open spec fn spec_is_terminal(self) -> bool {
        !(self is Created || self is Running)
    }

    /// The run has ended and will emit nothing more.
    #[verifier::when_used_as_spec(spec_is_terminal)]
    pub fn is_terminal(self) -> (r: bool)
        ensures
            r == self.spec_is_terminal(),
    {
        !matches!(self, RunState::Created | RunState::Running)
    }

    /// The text of the final notification of a run that ended in this state.
    pub open spec fn spec_summary(self) -> Seq<char> {
        match self {
            RunState::Completed => "completed"@,
            RunState::TimedOut => "timed out"@,
            RunState::Cancelled => "cancelled"@,
            RunState::Failed => "failed"@,
            RunState::Created => "created"@,
            RunState::Running => "running"@,
        }
    }

    pub fn summary(self) -> (r: String)
        ensures
            r@ == self.spec_summary(),
    {
        match self {
            RunState::Completed => String::from_str("completed"),
            RunState::TimedOut => String::from_str("timed out"),
            RunState::Cancelled => String::from_str("cancelled"),
            RunState::Failed => String::from_str("failed"),
            RunState::Created => String::from_str("created"),
            RunState::Running => String::from_str("running"),
        }
    }
}

/// What the engine or the caller reports to a run.
#[derive(Debug, Clone)]
pub enum RunnerEvent {
    /// The engine finished the current turn; `summary` describes it.
    TurnSucceeded { summary: String },
    /// The engine reported an error that a retry may mend.
    TransientError,
    /// The engine failed in a way that no retry can mend.
    EngineFailure,
    /// The caller asked the run to stop.
    Cancel,
}

/// What the driver of a run must do next.
#[derive(Debug, Clone, Copy, PartialEq, Eq, Structural)]
pub enum RunnerAction {
    /// Submit the next turn to the engine.
    SubmitTurn,
    /// Submit the current turn again.
    RetryTurn,
    /// The run is over: release its agent session and buffers.
    Release,
    /// Nothing to do.
    Idle,
}

/// The result of one transition: the driver's next action and the
/// notifications emitted by the transition, in order.
pub struct StepOutcome {
    pub action: RunnerAction,
    pub notifications: Vec<SubAgentNotification>,
}

/// The decisions of one subagent run. The driver performs each action,
/// delivers the notifications, and reports the engine's answer back.
pub struct SubAgentRunner {
    subagent_id: String,
    state: RunState,
    turns: usize,
    max_turns: usize,
    timeout_seconds: Option<u64>,
    started_at: i64,
    retries: u32,
    last_timestamp: i64,
    emitted: Ghost<Seq<SubAgentNotification>>,
}

/// The wall-clock budget is used up at `now` for a run started at `start`.
pub open spec fn budget_spent(timeout_seconds: Option<u64>, start: i64, now: i64) -> bool {
    match timeout_seconds {
        Some(t) => now - start >= t * 1000,
        None => false,
    }
}

impl SubAgentRunner {
    pub closed spec fn id(&self) -> Seq<char> {
        self.subagent_id@
    }

    pub closed spec fn state(&self) -> RunState {
        self.state
    }

    /// Turns the engine has completed.
    pub closed spec fn turns(&self) -> nat {
        self.turns as nat
    }

    pub closed spec fn max_turns(&self) -> nat {
        self.max_turns as nat
    }

    pub closed spec fn timeout_seconds(&self) -> Option<u64> {
        self.timeout_seconds
    }

    pub closed spec fn started_at(&self) -> i64 {
        self.started_at
    }

    /// Consecutive transient errors on the current turn.
    pub closed spec fn retries(&self) -> nat {
        self.retries as nat
    }

    /// The latest timestamp given to a notification, or the creation time.
    pub closed spec fn last_timestamp(&self) -> i64 {
        self.last_timestamp
    }

    /// Every notification the run has emitted, in order.
    pub closed spec fn emitted(&self) -> Seq<SubAgentNotification> {
        self.emitted@
    }

    pub closed spec fn wf(&self) -> bool {
        &&& self.max_turns > 0
        &&& self.retries <= MAX_RETRIES
        &&& (self.state is Running ==> self.turns < self.max_turns)
        &&& (self.state is Created ==> self.turns == 0 && self.emitted@.len() == 0)
        &&& timestamps_ordered(self.emitted@)
        &&& complete_only_last(self.emitted@)
        &&& (forall|i: int| 0 <= i < self.emitted@.len()
            ==> (#[trigger] self.emitted@[i]).timestamp <= self.last_timestamp
                && self.emitted@[i].subagent_id@ == self.subagent_id@)
        &&& (self.state.spec_is_terminal() <==> stream_finished(self.emitted@))
    }

    /// A run of `request` under id `subagent_id`, created at `now`. A request
    /// without a turn bound gets `default_max_turns`.
    pub fn new(subagent_id: String, request: &SpawnSubAgentArgs, default_max_turns: usize, now: i64) -> (r: Self)
        requires
            request.is_valid(),
            default_max_turns > 0,
        ensures
            r.wf(),
            r.id() == subagent_id@,
            r.state() == RunState::Created,
            r.turns() == 0,
            r.retries() == 0,
            r.max_turns() == (match request.max_turns {
                Some(n) => n,
                None => default_max_turns,
            }),
            r.timeout_seconds() == request.timeout_seconds,
            r.started_at() == now,
            r.last_timestamp() == now,
            r.emitted() == Seq::<SubAgentNotification>::empty(),
    {
        let max_turns = match request.max_turns {
            Some(n) => n,
            None => default_max_turns,
        };
        SubAgentRunner {
            subagent_id,
            state: RunState::Created,
            turns: 0,
            max_turns,
            timeout_seconds: request.timeout_seconds,
            started_at: now,
            retries: 0,
            last_timestamp: now,
            emitted: Ghost(Seq::empty()),
        }
    }

    /// The state after `event` arrives at `now`.
    pub open spec fn next_state(&self, event: RunnerEvent, now: i64) -> RunState {
        match self.state() {
            RunState::Created => if event is Cancel { RunState::Cancelled } else { RunState::Created },
            RunState::Running => match event {
                RunnerEvent::TurnSucceeded { .. } => if self.turns() + 1 >= self.max_turns() {
                    RunState::Completed
                } else if budget_spent(self.timeout_seconds(), self.started_at(), now) {
                    RunState::TimedOut
                } else {
                    RunState::Running
                },
                RunnerEvent::TransientError => if self.retries() < MAX_RETRIES {
                    RunState::Running
                } else {
                    RunState::Failed
                },
                RunnerEvent::EngineFailure => RunState::Failed,
                RunnerEvent::Cancel => RunState::Cancelled,
            },
            _ => self.state(),
        }
    }

    /// The driver's action after `event` arrives at `now`.
    pub open spec fn next_action(&self, event: RunnerEvent, now: i64) -> RunnerAction {
        let s = self.next_state(event, now);
        if s.spec_is_terminal() && !self.state().spec_is_terminal() {
            RunnerAction::Release
        } else if self.state() is Running && s is Running {
            if event is TransientError { RunnerAction::RetryTurn } else { RunnerAction::SubmitTurn }
        } else {
            RunnerAction::Idle
        }
    }

    /// `event` completes a turn of a running run, which is reported.
    pub open spec fn reports_turn(&self, event: RunnerEvent) -> bool {
        self.state() is Running && event is TurnSucceeded
    }

    /// `event` at `now` ends the run, which emits its completion.
    pub open spec fn ends_run(&self, event: RunnerEvent, now: i64) -> bool {
        !self.state().spec_is_terminal() && self.next_state(event, now).spec_is_terminal()
    }

    /// Timestamp given to notifications emitted at `now`: never before an
    /// earlier one.
    pub open spec fn stamp(&self, now: i64) -> i64 {
        if now >= self.last_timestamp() { now } else { self.last_timestamp() }
    }

    /// Whether the wall-clock budget is spent at `now`.
    pub fn budget_spent_at(&self, now: i64) -> (r: bool)
        ensures
            r == budget_spent(self.timeout_seconds(), self.started_at(), now),
    {
        match self.timeout_seconds {
            Some(t) => (now as i128) - (self.started_at as i128) >= (t as i128) * 1000,
            None => false,
        }
    }

    /// Created to Running at `now`: the driver submits the first turn, which
    /// carries the request's message. In any other state nothing changes.
    pub fn start(&mut self, now: i64) -> (r: RunnerAction)
        requires
            old(self).wf(),
        ensures
            final(self).wf(),
            final(self).id() == old(self).id(),
            final(self).max_turns() == old(self).max_turns(),
            final(self).timeout_seconds() == old(self).timeout_seconds(),
            final(self).turns() == old(self).turns(),
            final(self).retries() == old(self).retries(),
            final(self).last_timestamp() == old(self).last_timestamp(),
            final(self).emitted() == old(self).emitted(),
            old(self).state() is Created ==> final(self).state() == RunState::Running
                && final(self).started_at() == now && r == RunnerAction::SubmitTurn,
            !(old(self).state() is Created) ==> final(self).state() == old(self).state()
                && final(self).started_at() == old(self).started_at() && r == RunnerAction::Idle,
    {
        if self.state == RunState::Created {
            self.state = RunState::Running;
            self.started_at = now;
            RunnerAction::SubmitTurn
        } else {
            RunnerAction::Idle
        }
    }

    fn make_notification(&self, message: String, is_complete: bool, ts: i64) -> (r: SubAgentNotification)
        ensures
            r.subagent_id@ == self.id(),
            r.message == message,
            r.is_complete == is_complete,
            r.timestamp == ts,
    {
        SubAgentNotification {
            subagent_id: self.subagent_id.clone(),
            message,
            timestamp: ts,
            is_complete,
        }
    }

    /// Applies `event`, reported at `now`, and says what the driver does next.
    /// A completed turn is reported by a progress notification; a transition
    /// into a terminal state is reported by exactly one completion, last.
    /// In a terminal state every event is ignored.
    pub fn step(&mut self, event: RunnerEvent, now: i64) -> (r: StepOutcome)
        requires
            old(self).wf(),
        ensures
            final(self).wf(),
            final(self).id() == old(self).id(),
            final(self).max_turns() == old(self).max_turns(),
            final(self).timeout_seconds() == old(self).timeout_seconds(),
            final(self).started_at() == old(self).started_at(),
            final(self).state() == old(self).next_state(event, now),
            r.action == old(self).next_action(event, now),
            final(self).emitted() == old(self).emitted() + r.notifications@,
            r.notifications@.len() == (if old(self).reports_turn(event) { 1int } else { 0 })
                + (if old(self).ends_run(event, now) { 1int } else { 0 }),
            forall|i: int| 0 <= i < r.notifications@.len()
                ==> (#[trigger] r.notifications@[i]).timestamp == old(self).stamp(now),
            old(self).reports_turn(event) ==> r.notifications@[0].is_complete == false
                && r.notifications@[0].message == event->summary,
            old(self).ends_run(event, now) ==> r.notifications@.last().is_complete
                && r.notifications@.last().message@ == final(self).state().spec_summary(),
            old(self).reports_turn(event) ==> final(self).turns() == old(self).turns() + 1
                && final(self).retries() == 0,
            !old(self).reports_turn(event) ==> final(self).turns() == old(self).turns(),
            old(self).state() is Running && event is TransientError && final(self).state() is Running
                ==> final(self).retries() == old(self).retries() + 1,
            old(self).state().spec_is_terminal() ==> final(self).last_timestamp() == old(self).last_timestamp(),
            !old(self).state().spec_is_terminal() ==> final(self).last_timestamp() == old(self).stamp(now),
    {
        let ghost old_self = *self;
        let mut notifications: Vec<SubAgentNotification> = Vec::new();
        if self.state.is_terminal() {
            proof { assert(self.emitted@ =~= self.emitted@ + notifications@); }
            return StepOutcome { action: RunnerAction::Idle, notifications };
        }
        let ts: i64 = if now >= self.last_timestamp { now } else { self.last_timestamp };
        let mut action = RunnerAction::Idle;
        let mut next = self.state;
        if self.state == RunState::Created {
            if let RunnerEvent::Cancel = event {
                next = RunState::Cancelled;
            }
        } else {
            match event {
                RunnerEvent::TurnSucceeded { summary } => {
                    notifications.push(self.make_notification(summary, false, ts));
                    self.turns = self.turns + 1;
                    self.retries = 0;
                    if self.turns >= self.max_turns {
                        next = RunState::Completed;
                    } else if self.budget_spent_at(now) {
                        next = RunState::TimedOut;
                    } else {
                        action = RunnerAction::SubmitTurn;
                    }
                },
                RunnerEvent::TransientError => {
                    if self.retries < MAX_RETRIES {
                        self.retries = self.retries + 1;
                        action = RunnerAction::RetryTurn;
                    } else {
                        next = RunState::Failed;
                    }
                },
                RunnerEvent::EngineFailure => {
                    next = RunState::Failed;
                },
                RunnerEvent::Cancel => {
                    next = RunState::Cancelled;
                },
            }
        }
        if next.is_terminal() {
            let text = next.summary();
            notifications.push(self.make_notification(text, true, ts));
            action = RunnerAction::Release;
        }
        self.state = next;
        self.last_timestamp = ts;
        proof {
            let old_e = old_self.emitted@;
            let e = old_e + notifications@;
            self.emitted@ = e;
            assert forall|i: int, j: int| 0 <= i <= j < e.len()
                implies #[trigger] e[i].timestamp <= #[trigger] e[j].timestamp by {
                if j >= old_e.len() {
                    assert(e[j] == notifications@[j - old_e.len()]);
                    if i < old_e.len() {
                        assert(e[i] == old_e[i]);
                    } else {
                        assert(e[i] == notifications@[i - old_e.len()]);
                    }
                } else {
                    assert(e[i] == old_e[i]);
                    assert(e[j] == old_e[j]);
                }
            }
            assert forall|i: int| 0 <= i < e.len() - 1 implies !(#[trigger] e[i]).is_complete by {
                if i < old_e.len() {
                    assert(e[i] == old_e[i]);
                    if old_e.len() > 0 && i == old_e.len() - 1 {
                        assert(!old_self.state.spec_is_terminal());
                    }
                } else {
                    assert(e[i] == notifications@[i - old_e.len()]);
                }
            }
            assert forall|i: int| 0 <= i < e.len() implies
                (#[trigger] e[i]).timestamp <= self.last_timestamp
                && e[i].subagent_id@ == self.subagent_id@ by {
                if i < old_e.len() {
                    assert(e[i] == old_e[i]);
                } else {
                    assert(e[i] == notifications@[i - old_e.len()]);
                }
            }
        }
        StepOutcome { action, notifications }
    }

    pub fn current_state(&self) -> (r: RunState)
        ensures
            r == self.state(),
    {
        self.state
    }

    /// The latest timestamp given to a notification; for an ended run, the
    /// time of its completion.
    pub fn last_stamp(&self) -> (r: i64)
        ensures
            r == self.last_timestamp(),
    {
        self.last_timestamp
    }

    pub fn turns_done(&self) -> (r: usize)
        ensures
            r == self.turns(),
    {
        self.turns
    }

    pub fn subagent_id(&self) -> (r: &String)
        ensures
            r@ == self.id(),
    {
        &self.subagent_id
    }
}

/// Every run that has ended has delivered a complete stream: non-empty,
/// ordered in time, with exactly one completion, which comes last.
pub proof fn lemma_ended_run_stream_complete(r: &SubAgentRunner)
    requires
        r.wf(),
        r.state().spec_is_terminal(),
    ensures
        complete_stream(r.emitted()),
{
}

/// At every step of a run, the stream emitted so far is ordered in time and
/// holds a completion at most once, as its last element.
pub proof fn lemma_stream_prefix_ordered(r: &SubAgentRunner)
    requires
        r.wf(),
    ensures
        timestamps_ordered(r.emitted()),
        complete_only_last(r.emitted()),
        stream_finished(r.emitted()) <==> r.state().spec_is_terminal(),
{
}

/// A run bounded to one turn that is running ends as `Completed` with the
/// first turn the engine finishes; only an engine failure or a cancellation
/// ends it otherwise.
pub proof fn lemma_single_turn_completes(r: &SubAgentRunner, event: RunnerEvent, now: i64)
    requires
        r.wf(),
        r.max_turns() == 1,
        r.state() is Running,
    ensures
        r.turns() == 0,
        event is TurnSucceeded ==> r.next_state(event, now) == RunState::Completed,
        event is TurnSucceeded ==> r.ends_run(event, now) && r.next_action(event, now) == RunnerAction::Release,
        r.next_state(event, now) is Running ==> event is TransientError,
{
}

/// Cancelling a run that has not ended ends it as `Cancelled` with one
/// completion; cancelling a run that has ended changes nothing.
pub proof fn lemma_cancel(r: &SubAgentRunner, now: i64)
    requires
        r.wf(),
    ensures
        !r.state().spec_is_terminal() ==> r.next_state(RunnerEvent::Cancel, now) == RunState::Cancelled
            && r.ends_run(RunnerEvent::Cancel, now)
            && !r.reports_turn(RunnerEvent::Cancel),
        r.state().spec_is_terminal() ==> r.next_state(RunnerEvent::Cancel, now) == r.state()
            && !r.ends_run(RunnerEvent::Cancel, now)
            && !r.reports_turn(RunnerEvent::Cancel)
            && r.next_action(RunnerEvent::Cancel, now) == RunnerAction::Idle,
{
}

} // verus!
