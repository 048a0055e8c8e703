use subagent::notification::{NotificationChannel, SubAgentNotification, DEFAULT_CHANNEL_CAPACITY};
use subagent::request::{AgentSource, SpawnSubAgentArgs, SubAgentError};
use subagent::runner::{RunState, RunnerAction, RunnerEvent, SubAgentRunner, MAX_RETRIES};
use subagent::supervisor::{label, SubAgentSupervisor};

fn turn(text: &str) -> RunnerEvent {
    RunnerEvent::TurnSucceeded { summary: text.to_string() }
}

fn note(id: &str, text: &str, ts: i64, complete: bool) -> SubAgentNotification {
    SubAgentNotification {
        subagent_id: id.to_string(),
        message: text.to_string(),
        timestamp: ts,
        is_complete: complete,
    }
}

fn plain(message: &str) -> SpawnSubAgentArgs {
    SpawnSubAgentArgs {
        recipe_name: None,
        instructions: None,
        message: message.to_string(),
        max_turns: None,
        timeout_seconds: None,
    }
}

#[test]
fn new_with_recipe_sets_only_recipe() {
    let a = SpawnSubAgentArgs::new_with_recipe("summarize".to_string(), "go".to_string());
    assert_eq!(a.recipe_name.as_deref(), Some("summarize"));
    assert!(a.instructions.is_none());
    assert_eq!(a.message, "go");
    assert!(a.max_turns.is_none());
    assert!(a.timeout_seconds.is_none());
}

#[test]
fn new_with_instructions_sets_only_instructions() {
    let a = SpawnSubAgentArgs::new_with_instructions("be brief".to_string(), "go".to_string());
    assert!(a.recipe_name.is_none());
    assert_eq!(a.instructions.as_deref(), Some("be brief"));
    assert_eq!(a.message, "go");
}

#[test]
fn builders_set_bounds() {
    let a = SpawnSubAgentArgs::new_with_recipe("r".to_string(), "m".to_string())
        .with_max_turns(3)
        .with_timeout(30);
    assert_eq!(a.max_turns, Some(3));
    assert_eq!(a.timeout_seconds, Some(30));
    assert_eq!(a.recipe_name.as_deref(), Some("r"));
    assert_eq!(a.validate(), Ok(()));
}

#[test]
fn both_recipe_and_instructions_is_invalid() {
    let mut a = SpawnSubAgentArgs::new_with_recipe("r".to_string(), "m".to_string());
    a.instructions = Some("i".to_string());
    assert_eq!(a.validate(), Err(SubAgentError::InvalidRequest));
}

#[test]
fn empty_message_is_invalid() {
    let a = SpawnSubAgentArgs::new_with_instructions("i".to_string(), String::new());
    assert_eq!(a.validate(), Err(SubAgentError::InvalidRequest));
    assert_eq!(plain("").validate(), Err(SubAgentError::InvalidRequest));
}

#[test]
fn zero_bounds_are_invalid() {
    assert_eq!(plain("m").with_max_turns(0).validate(), Err(SubAgentError::InvalidRequest));
    assert_eq!(plain("m").with_timeout(0).validate(), Err(SubAgentError::InvalidRequest));
    assert_eq!(plain("m").validate(), Ok(()));
}

#[test]
fn agent_source_is_tagged() {
    let r = SpawnSubAgentArgs::new_with_recipe("r".to_string(), "m".to_string());
    assert_eq!(r.agent_source(), AgentSource::Recipe("r".to_string()));
    let i = SpawnSubAgentArgs::new_with_instructions("i".to_string(), "m".to_string());
    assert_eq!(i.agent_source(), AgentSource::Instructions("i".to_string()));
    assert_eq!(plain("m").agent_source(), AgentSource::Default);
}

#[test]
fn channel_keeps_order_and_closes() {
    let mut c = NotificationChannel::new(4);
    assert_eq!(c.send(note("sa-1", "a", 1, false)), Ok(()));
    assert_eq!(c.send(note("sa-1", "b", 2, false)), Ok(()));
    assert_eq!(c.send(note("sa-1", "done", 3, true)), Ok(()));
    assert!(c.is_closed_now());
    assert_eq!(c.send(note("sa-1", "late", 4, false)), Err(SubAgentError::ChannelClosed));
    assert_eq!(c.len(), 3);
    assert!(!c.is_finished());
    assert_eq!(c.receive().unwrap().message, "a");
    assert_eq!(c.receive().unwrap().message, "b");
    let last = c.receive().unwrap();
    assert_eq!(last.message, "done");
    assert!(last.is_complete);
    assert!(c.receive().is_none());
    assert!(c.is_finished());
}

#[test]
fn channel_applies_backpressure() {
    let mut c = NotificationChannel::new(1);
    assert_eq!(c.send(note("sa-1", "a", 1, false)), Ok(()));
    assert_eq!(c.send(note("sa-1", "b", 2, false)), Err(SubAgentError::ChannelFull));
    assert_eq!(c.receive().unwrap().message, "a");
    assert_eq!(c.send(note("sa-1", "b", 2, false)), Ok(()));
    assert_eq!(NotificationChannel::with_default_capacity().len(), 0);
    assert_eq!(DEFAULT_CHANNEL_CAPACITY, 256);
}

#[test]
fn runner_with_one_turn_completes() {
    let req = plain("hello").with_max_turns(1);
    let mut r = SubAgentRunner::new("sa-7".to_string(), &req, 10, 100);
    assert_eq!(r.current_state(), RunState::Created);
    assert_eq!(r.start(100), RunnerAction::SubmitTurn);
    let out = r.step(turn("answered"), 150);
    assert_eq!(out.action, RunnerAction::Release);
    assert_eq!(r.current_state(), RunState::Completed);
    assert_eq!(out.notifications.len(), 2);
    assert_eq!(out.notifications[0].message, "answered");
    assert!(!out.notifications[0].is_complete);
    assert_eq!(out.notifications[1].message, "completed");
    assert!(out.notifications[1].is_complete);
    assert_eq!(out.notifications[1].subagent_id, "sa-7");
    assert_eq!(out.notifications[1].timestamp, 150);
    assert_eq!(r.turns_done(), 1);
}

#[test]
fn runner_uses_default_turn_cap() {
    let req = plain("hello");
    let mut r = SubAgentRunner::new("sa-1".to_string(), &req, 2, 0);
    r.start(0);
    let first = r.step(turn("one"), 1);
    assert_eq!(first.action, RunnerAction::SubmitTurn);
    assert_eq!(first.notifications.len(), 1);
    let second = r.step(turn("two"), 2);
    assert_eq!(second.action, RunnerAction::Release);
    assert_eq!(r.current_state(), RunState::Completed);
}

#[test]
fn runner_retries_then_fails() {
    let req = plain("hello");
    let mut r = SubAgentRunner::new("sa-1".to_string(), &req, 5, 0);
    r.start(0);
    for _ in 0..MAX_RETRIES {
        let out = r.step(RunnerEvent::TransientError, 1);
        assert_eq!(out.action, RunnerAction::RetryTurn);
        assert!(out.notifications.is_empty());
    }
    let out = r.step(RunnerEvent::TransientError, 2);
    assert_eq!(out.action, RunnerAction::Release);
    assert_eq!(r.current_state(), RunState::Failed);
    assert_eq!(out.notifications.len(), 1);
    assert_eq!(out.notifications[0].message, "failed");
}

#[test]
fn runner_success_resets_retries() {
    let req = plain("hello");
    let mut r = SubAgentRunner::new("sa-1".to_string(), &req, 5, 0);
    r.start(0);
    r.step(RunnerEvent::TransientError, 1);
    r.step(RunnerEvent::TransientError, 1);
    r.step(turn("ok"), 2);
    assert_eq!(r.step(RunnerEvent::TransientError, 3).action, RunnerAction::RetryTurn);
    assert_eq!(r.current_state(), RunState::Running);
}

#[test]
fn runner_engine_failure_fails() {
    let mut r = SubAgentRunner::new("sa-1".to_string(), &plain("m"), 5, 0);
    r.start(0);
    let out = r.step(RunnerEvent::EngineFailure, 4);
    assert_eq!(r.current_state(), RunState::Failed);
    assert_eq!(out.notifications.len(), 1);
    assert!(out.notifications[0].is_complete);
}

#[test]
fn runner_times_out_between_turns() {
    let req = plain("hello").with_timeout(2);
    let mut r = SubAgentRunner::new("sa-1".to_string(), &req, 10, 1_000);
    r.start(1_000);
    assert_eq!(r.budget_spent_at(2_999), false);
    assert_eq!(r.step(turn("a"), 2_999).action, RunnerAction::SubmitTurn);
    let out = r.step(turn("b"), 3_000);
    assert_eq!(out.action, RunnerAction::Release);
    assert_eq!(r.current_state(), RunState::TimedOut);
    assert_eq!(out.notifications[1].message, "timed out");
}

#[test]
fn runner_cancel_then_noop() {
    let mut r = SubAgentRunner::new("sa-1".to_string(), &plain("m"), 5, 0);
    r.start(0);
    let out = r.step(RunnerEvent::Cancel, 5);
    assert_eq!(out.action, RunnerAction::Release);
    assert_eq!(r.current_state(), RunState::Cancelled);
    assert_eq!(out.notifications.len(), 1);
    assert_eq!(out.notifications[0].message, "cancelled");
    let again = r.step(RunnerEvent::Cancel, 6);
    assert_eq!(again.action, RunnerAction::Idle);
    assert!(again.notifications.is_empty());
    assert_eq!(r.current_state(), RunState::Cancelled);
}

#[test]
fn runner_cancel_before_start() {
    let mut r = SubAgentRunner::new("sa-1".to_string(), &plain("m"), 5, 0);
    assert_eq!(r.step(turn("x"), 1).action, RunnerAction::Idle);
    let out = r.step(RunnerEvent::Cancel, 1);
    assert_eq!(r.current_state(), RunState::Cancelled);
    assert_eq!(out.notifications.len(), 1);
    assert_eq!(r.start(2), RunnerAction::Idle);
}

#[test]
fn runner_timestamps_never_decrease() {
    let mut r = SubAgentRunner::new("sa-1".to_string(), &plain("m").with_max_turns(3), 5, 0);
    r.start(0);
    let a = r.step(turn("a"), 50);
    let b = r.step(turn("b"), 20);
    let c = r.step(turn("c"), 70);
    let stream: Vec<SubAgentNotification> =
        a.notifications.into_iter().chain(b.notifications).chain(c.notifications).collect();
    let stamps: Vec<i64> = stream.iter().map(|n| n.timestamp).collect();
    assert_eq!(stamps, vec![50, 50, 70, 70]);
    assert_eq!(stream.iter().filter(|n| n.is_complete).count(), 1);
    assert!(stream.last().unwrap().is_complete);
    assert_eq!(r.last_stamp(), 70);
}

#[test]
fn label_prints_decimal_number() {
    assert_eq!(label(1), "sa-1");
    assert_eq!(label(42), "sa-42");
    assert_eq!(label(0), "sa-0");
    assert_eq!(label(u64::MAX), "sa-18446744073709551615");
}

#[test]
fn single_turn_scenario() {
    let mut s = SubAgentSupervisor::new(4, 10, DEFAULT_CHANNEL_CAPACITY, 1_000);
    let req = plain("hello").with_max_turns(1);
    let id = s.spawn(&req, 10).unwrap();
    assert_eq!(label(id), "sa-1");
    assert_eq!(s.state_of(id), Ok(RunState::Running));
    assert_eq!(s.report(id, turn("hi there"), 20), Ok(RunnerAction::Release));
    let stream = s.stream_notifications(id).unwrap();
    assert_eq!(stream.len(), 2);
    assert!(!stream[0].is_complete);
    assert!(stream[1].is_complete);
    assert_eq!(stream[1].message, "completed");
    assert_eq!(stream[0].subagent_id, "sa-1");
    assert_eq!(s.state_of(id), Ok(RunState::Completed));
    assert!(s.stream_notifications(id).unwrap().is_empty());
}

#[test]
fn spawn_gives_fresh_ids() {
    let mut s = SubAgentSupervisor::new(8, 10, 16, 0);
    let a = s.spawn(&plain("a"), 0).unwrap();
    let b = s.spawn(&plain("b"), 0).unwrap();
    let c = s.spawn(&plain("c"), 0).unwrap();
    assert_ne!(a, b);
    assert_ne!(b, c);
    assert_ne!(a, c);
    assert_eq!(s.active(), 3);
}

#[test]
fn spawn_rejects_invalid_requests() {
    let mut s = SubAgentSupervisor::new(8, 10, 16, 0);
    assert_eq!(s.spawn(&plain(""), 0), Err(SubAgentError::InvalidRequest));
    let mut both = SpawnSubAgentArgs::new_with_recipe("r".to_string(), "m".to_string());
    both.instructions = Some("i".to_string());
    assert_eq!(s.spawn(&both, 0), Err(SubAgentError::InvalidRequest));
    assert_eq!(s.active(), 0);
}

#[test]
fn spawn_beyond_limit_is_refused() {
    let mut s = SubAgentSupervisor::new(1, 10, 16, 0);
    let first = s.spawn(&plain("a"), 0).unwrap();
    assert_eq!(s.spawn(&plain("b"), 0), Err(SubAgentError::CapacityExceeded));
    assert_eq!(s.active(), 1);
    assert_eq!(s.state_of(2), Err(SubAgentError::UnknownSubAgent));
    assert_eq!(s.cancel(first, 5, true), Ok(()));
    assert_eq!(s.active(), 0);
    assert_eq!(s.spawn(&plain("b"), 6), Ok(2));
}

#[test]
fn zero_limit_refuses_everything() {
    let mut s = SubAgentSupervisor::new(0, 10, 16, 0);
    assert_eq!(s.spawn(&plain("a"), 0), Err(SubAgentError::CapacityExceeded));
}

#[test]
fn cancel_running_subagent() {
    let mut s = SubAgentSupervisor::new(2, 10, 16, 0);
    let id = s.spawn(&plain("work"), 0).unwrap();
    assert_eq!(s.report(id, turn("step"), 1), Ok(RunnerAction::SubmitTurn));
    assert_eq!(s.cancel(id, 2, false), Ok(()));
    assert_eq!(s.state_of(id), Ok(RunState::Cancelled));
    let stream = s.stream_notifications(id).unwrap();
    assert_eq!(stream.len(), 2);
    assert_eq!(stream[1].message, "cancelled");
    assert!(stream[1].is_complete);
    assert_eq!(s.cancel(id, 3, true), Ok(()));
    assert!(s.stream_notifications(id).unwrap().is_empty());
    assert_eq!(s.report(id, turn("late"), 4), Ok(RunnerAction::Idle));
}

#[test]
fn cancel_unknown_id() {
    let mut s = SubAgentSupervisor::new(2, 10, 16, 0);
    assert_eq!(s.cancel(9, 0, false), Ok(()));
    assert_eq!(s.cancel(9, 0, true), Err(SubAgentError::UnknownSubAgent));
    assert!(matches!(s.receive(9), Err(SubAgentError::UnknownSubAgent)));
    assert!(s.stream_notifications(9).is_err());
    assert_eq!(s.report(9, RunnerEvent::Cancel, 0), Err(SubAgentError::UnknownSubAgent));
}

#[test]
fn report_waits_for_room() {
    let mut s = SubAgentSupervisor::new(2, 10, 2, 0);
    let id = s.spawn(&plain("work"), 0).unwrap();
    assert_eq!(s.report(id, turn("a"), 1), Ok(RunnerAction::SubmitTurn));
    assert_eq!(s.report(id, turn("b"), 2), Err(SubAgentError::ChannelFull));
    assert_eq!(s.receive(id).unwrap().unwrap().message, "a");
    assert!(s.receive(id).unwrap().is_none());
    assert_eq!(s.report(id, turn("b"), 2), Ok(RunnerAction::SubmitTurn));
    assert_eq!(s.cancel(id, 3, true), Ok(()));
    assert_eq!(s.state_of(id), Ok(RunState::Cancelled));
}

#[test]
fn reclaim_after_retention() {
    let mut s = SubAgentSupervisor::new(4, 10, 16, 100);
    let done = s.spawn(&plain("a").with_max_turns(1), 0).unwrap();
    let live = s.spawn(&plain("b"), 0).unwrap();
    s.report(done, turn("x"), 10).unwrap();
    s.reclaim(109);
    assert_eq!(s.state_of(done), Ok(RunState::Completed));
    s.reclaim(110);
    assert_eq!(s.state_of(done), Err(SubAgentError::UnknownSubAgent));
    assert_eq!(s.state_of(live), Ok(RunState::Running));
    let next = s.spawn(&plain("c"), 120).unwrap();
    assert_ne!(next, done);
}
