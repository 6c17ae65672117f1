use poly_agent::error::HubError;
use poly_agent::event::{ArtifactEvent, StatusEvent, UpdateEvent};
use poly_agent::handler::{SimpleAgentHandler, StreamKind, StreamPoll, TaskStorage};
use poly_agent::model::{Message, Role};
use poly_agent::notify::PushConfig;
use poly_agent::state::TaskState;
use poly_agent::subs::SUBSCRIBER_CAPACITY;

fn text(id: &str, body: &str) -> Message {
    Message::new(id, Role::User, vec![body.to_string()])
}

fn status(task_id: &str, state: TaskState, is_final: bool) -> StatusEvent {
    StatusEvent { task_id: task_id.to_string(), state, message: None, is_final }
}

fn artifact(task_id: &str, artifact_id: &str) -> ArtifactEvent {
    ArtifactEvent {
        task_id: task_id.to_string(),
        artifact_id: artifact_id.to_string(),
        parts: vec!["out".to_string()],
        append: false,
    }
}

fn state_of(p: &StreamPoll) -> Option<TaskState> {
    match p {
        StreamPoll::Item(UpdateEvent::Status(e)) => Some(e.state),
        _ => None,
    }
}

#[test]
fn created_task_reads_back() {
    let mut h = SimpleAgentHandler::new();
    let created = h.create_task("t1", "c1").unwrap();
    assert_eq!(created.id, "t1");
    let t = h.get_task("t1", None).unwrap();
    assert_eq!(t.id, "t1");
    assert_eq!(t.context_id, "c1");
    assert_eq!(t.state, TaskState::Submitted);
    assert!(t.history.is_empty());
}

#[test]
fn creating_twice_is_refused() {
    let mut h = SimpleAgentHandler::default();
    h.create_task("t1", "c1").unwrap();
    assert_eq!(h.create_task("t1", "c2").unwrap_err(), HubError::AlreadyExists);
    assert_eq!(h.get_task("t1", None).unwrap().context_id, "c1");
}

#[test]
fn unknown_task_is_not_found() {
    let mut h = SimpleAgentHandler::new();
    assert_eq!(h.get_task("nope", None).unwrap_err(), HubError::NotFound);
    assert_eq!(h.update_task_status("nope", TaskState::Working, None).unwrap_err(), HubError::NotFound);
    assert_eq!(h.cancel_task("nope").unwrap_err(), HubError::NotFound);
    assert_eq!(h.task_exists("nope"), Ok(false));
}

#[test]
fn transitions_follow_the_state_machine() {
    let mut h = SimpleAgentHandler::new();
    h.create_task("t1", "c1").unwrap();
    assert_eq!(h.update_task_status("t1", TaskState::Completed, None).unwrap_err(), HubError::InvalidTransition);
    assert_eq!(h.get_task("t1", None).unwrap().state, TaskState::Submitted);
    let t = h.update_task_status("t1", TaskState::Working, Some(text("m1", "hi"))).unwrap();
    assert_eq!(t.state, TaskState::Working);
    assert_eq!(t.history.len(), 1);
    h.update_task_status("t1", TaskState::InputRequired, None).unwrap();
    h.update_task_status("t1", TaskState::Working, None).unwrap();
    h.update_task_status("t1", TaskState::Completed, Some(text("m2", "done"))).unwrap();
    assert_eq!(h.update_task_status("t1", TaskState::Working, None).unwrap_err(), HubError::InvalidTransition);
    let t = h.get_task("t1", None).unwrap();
    assert_eq!(t.state, TaskState::Completed);
    assert_eq!(t.history.len(), 2);
    assert_eq!(t.history[1].message_id, "m2");
}

#[test]
fn history_is_limited_to_the_most_recent() {
    let mut h = SimpleAgentHandler::new();
    h.create_task("t1", "c1").unwrap();
    h.update_task_status("t1", TaskState::Working, Some(text("m1", "a"))).unwrap();
    h.update_task_status("t1", TaskState::InputRequired, Some(text("m2", "b"))).unwrap();
    h.update_task_status("t1", TaskState::Working, Some(text("m3", "c"))).unwrap();
    let t = h.get_task("t1", Some(2)).unwrap();
    assert_eq!(t.history.len(), 2);
    assert_eq!(t.history[0].message_id, "m2");
    assert_eq!(t.history[1].message_id, "m3");
    assert_eq!(t.history[1].parts, vec!["c".to_string()]);
    assert_eq!(h.get_task("t1", Some(10)).unwrap().history.len(), 3);
    assert_eq!(h.get_task("t1", Some(0)).unwrap().history.len(), 0);
    assert_eq!(h.get_task("t1", None).unwrap().history.len(), 3);
}

#[test]
fn cancel_only_unfinished_tasks() {
    let mut h = SimpleAgentHandler::new();
    h.create_task("t1", "c1").unwrap();
    h.update_task_status("t1", TaskState::Working, None).unwrap();
    assert_eq!(h.cancel_task("t1").unwrap().state, TaskState::Canceled);
    assert_eq!(h.cancel_task("t1").unwrap_err(), HubError::InvalidTransition);
    h.create_task("t2", "c1").unwrap();
    assert_eq!(h.cancel_task("t2").unwrap().state, TaskState::Canceled);
}

#[test]
fn notification_settings_are_kept_per_task() {
    let mut h = SimpleAgentHandler::new();
    assert_eq!(h.get_task_notification("t1").unwrap_err(), HubError::NotFound);
    let c = PushConfig::new("t1", "https://example.org/hook", None);
    let stored = h.set_task_notification(&c).unwrap();
    assert_eq!(stored.url, "https://example.org/hook");
    let c2 = PushConfig::new("t1", "https://example.org/other", Some("tok".to_string()));
    h.set_task_notification(&c2).unwrap();
    let got = h.get_task_notification("t1").unwrap();
    assert_eq!(got.url, "https://example.org/other");
    assert_eq!(got.token, Some("tok".to_string()));
    assert!(!h.task_exists("t1").unwrap());
}

#[test]
fn removing_a_missing_notification_twice_succeeds() {
    let mut h = SimpleAgentHandler::new();
    assert_eq!(h.remove_task_notification("t1"), Ok(()));
    assert_eq!(h.remove_task_notification("t1"), Ok(()));
    h.set_task_notification(&PushConfig::new("t1", "u", None)).unwrap();
    assert_eq!(h.remove_task_notification("t1"), Ok(()));
    assert_eq!(h.get_task_notification("t1").unwrap_err(), HubError::NotFound);
}

#[test]
fn status_broadcast_reaches_status_subscribers_only() {
    let mut h = SimpleAgentHandler::new();
    let s = h.add_status_subscriber("t1").unwrap();
    let a = h.add_artifact_subscriber("t1").unwrap();
    assert_ne!(s, a);
    h.broadcast_status_update("t1", status("t1", TaskState::Working, false)).unwrap();
    assert_eq!(h.get_subscriber_count("t1"), Ok(2));
    match h.next_event(s) {
        Some(UpdateEvent::Status(e)) => assert_eq!(e.state, TaskState::Working),
        other => panic!("unexpected {:?}", other),
    }
    assert!(h.next_event(s).is_none());
    assert!(h.next_event(a).is_none());
    h.broadcast_artifact_update("t1", artifact("t1", "a1")).unwrap();
    assert!(h.next_event(s).is_none());
    match h.next_event(a) {
        Some(UpdateEvent::Artifact(e)) => assert_eq!(e.artifact_id, "a1"),
        other => panic!("unexpected {:?}", other),
    }
}

#[test]
fn broadcast_to_other_task_or_nobody_is_a_no_op() {
    let mut h = SimpleAgentHandler::new();
    h.broadcast_status_update("t9", status("t9", TaskState::Working, false)).unwrap();
    let s = h.add_status_subscriber("t1").unwrap();
    h.broadcast_status_update("t2", status("t2", TaskState::Working, false)).unwrap();
    assert!(h.next_event(s).is_none());
    assert_eq!(h.get_subscriber_count("t2"), Ok(0));
}

#[test]
fn removing_a_subscription_twice_fails_the_second_time() {
    let mut h = SimpleAgentHandler::new();
    let s = h.add_status_subscriber("t1").unwrap();
    assert_eq!(h.remove_subscription(s), Ok(()));
    assert_eq!(h.remove_subscription(s), Err(HubError::NotFound));
    let s2 = h.add_status_subscriber("t1").unwrap();
    assert!(s2 > s);
}

#[test]
fn removing_task_subscribers_keeps_task_and_settings() {
    let mut h = SimpleAgentHandler::new();
    h.create_task("t1", "c1").unwrap();
    h.set_task_notification(&PushConfig::new("t1", "u", None)).unwrap();
    h.add_status_subscriber("t1").unwrap();
    h.add_artifact_subscriber("t1").unwrap();
    let other = h.add_status_subscriber("t2").unwrap();
    assert_eq!(h.get_subscriber_count("t1"), Ok(2));
    assert_eq!(h.remove_task_subscribers("t1"), Ok(()));
    assert_eq!(h.remove_task_subscribers("t1"), Ok(()));
    assert_eq!(h.get_subscriber_count("t1"), Ok(0));
    assert_eq!(h.get_subscriber_count("t2"), Ok(1));
    assert!(h.task_exists("t1").unwrap());
    assert!(h.get_task_notification("t1").is_ok());
    assert_eq!(h.remove_subscription(other), Ok(()));
}

#[test]
fn status_stream_sees_each_transition_then_ends() {
    let mut h = SimpleAgentHandler::new();
    let mut st = h.status_update_stream("t1").unwrap();
    assert!(matches!(h.poll_stream(&mut st), StreamPoll::Pending));
    h.create_task("t1", "c1").unwrap();
    h.update_task_status("t1", TaskState::Working, None).unwrap();
    h.update_task_status("t1", TaskState::Completed, None).unwrap();
    assert_eq!(state_of(&h.poll_stream(&mut st)), Some(TaskState::Submitted));
    assert_eq!(state_of(&h.poll_stream(&mut st)), Some(TaskState::Working));
    let last = h.poll_stream(&mut st);
    match &last {
        StreamPoll::Item(UpdateEvent::Status(e)) => {
            assert_eq!(e.state, TaskState::Completed);
            assert!(e.is_final);
        },
        other => panic!("unexpected {:?}", other),
    }
    assert!(matches!(h.poll_stream(&mut st), StreamPoll::Ended));
    assert_eq!(h.get_subscriber_count("t1"), Ok(0));
}

#[test]
fn a_new_stream_does_not_replay_history() {
    let mut h = SimpleAgentHandler::new();
    h.create_task("t1", "c1").unwrap();
    let mut st = h.status_update_stream("t1").unwrap();
    assert!(matches!(h.poll_stream(&mut st), StreamPoll::Pending));
    h.update_task_status("t1", TaskState::Working, None).unwrap();
    assert_eq!(state_of(&h.poll_stream(&mut st)), Some(TaskState::Working));
}

#[test]
fn artifact_stream_ends_with_the_task() {
    let mut h = SimpleAgentHandler::new();
    h.create_task("t1", "c1").unwrap();
    let mut st = h.artifact_update_stream("t1").unwrap();
    assert_eq!(st.kind, StreamKind::Artifact);
    h.update_task_status("t1", TaskState::Working, None).unwrap();
    h.broadcast_artifact_update("t1", artifact("t1", "a1")).unwrap();
    h.update_task_status("t1", TaskState::Failed, None).unwrap();
    match h.poll_stream(&mut st) {
        StreamPoll::Item(UpdateEvent::Artifact(e)) => assert_eq!(e.artifact_id, "a1"),
        other => panic!("unexpected {:?}", other),
    }
    assert!(matches!(h.poll_stream(&mut st), StreamPoll::Ended));
    assert!(st.ended);
    assert_eq!(h.get_subscriber_count("t1"), Ok(0));
}

#[test]
fn combined_stream_keeps_broadcast_order() {
    let mut h = SimpleAgentHandler::new();
    h.create_task("t1", "c1").unwrap();
    let mut st = h.combined_update_stream("t1").unwrap();
    h.update_task_status("t1", TaskState::Working, None).unwrap();
    h.broadcast_artifact_update("t1", artifact("t1", "a1")).unwrap();
    h.cancel_task("t1").unwrap();
    assert_eq!(state_of(&h.poll_stream(&mut st)), Some(TaskState::Working));
    assert!(matches!(h.poll_stream(&mut st), StreamPoll::Item(UpdateEvent::Artifact(_))));
    assert_eq!(state_of(&h.poll_stream(&mut st)), Some(TaskState::Canceled));
    assert!(matches!(h.poll_stream(&mut st), StreamPoll::Ended));
}

#[test]
fn closing_a_stream_early_releases_it() {
    let mut h = SimpleAgentHandler::new();
    let st = h.status_update_stream("t1").unwrap();
    assert_eq!(h.get_subscriber_count("t1"), Ok(1));
    let id = st.subscription_id;
    h.close_stream(st);
    assert_eq!(h.get_subscriber_count("t1"), Ok(0));
    assert_eq!(h.remove_subscription(id), Err(HubError::NotFound));
}

#[test]
fn a_full_subscriber_is_disconnected_and_others_still_receive() {
    let mut h = SimpleAgentHandler::new();
    let slow = h.add_status_subscriber("t1").unwrap();
    let mut st = h.status_update_stream("t1").unwrap();
    for _ in 0..SUBSCRIBER_CAPACITY {
        h.broadcast_status_update("t1", status("t1", TaskState::Working, false)).unwrap();
        assert!(matches!(h.poll_stream(&mut st), StreamPoll::Item(_)));
    }
    assert_eq!(h.get_subscriber_count("t1"), Ok(2));
    h.broadcast_status_update("t1", status("t1", TaskState::Working, false)).unwrap();
    assert_eq!(h.get_subscriber_count("t1"), Ok(1));
    assert_eq!(h.remove_subscription(slow), Err(HubError::NotFound));
    assert!(matches!(h.poll_stream(&mut st), StreamPoll::Item(_)));
}

#[test]
fn an_overflowed_stream_ends() {
    let mut h = SimpleAgentHandler::new();
    let mut st = h.status_update_stream("t1").unwrap();
    for _ in 0..(SUBSCRIBER_CAPACITY + 1) {
        h.broadcast_status_update("t1", status("t1", TaskState::Working, false)).unwrap();
    }
    assert!(matches!(h.poll_stream(&mut st), StreamPoll::Ended));
}

#[test]
fn racing_first_steps_leave_one_legal_state() {
    let mut h = SimpleAgentHandler::new();
    h.create_task("t1", "c1").unwrap();
    let mut ok = 0;
    for _ in 0..100 {
        match h.update_task_status("t1", TaskState::Working, None) {
            Ok(_) => ok += 1,
            Err(e) => assert_eq!(e, HubError::InvalidTransition),
        }
    }
    assert_eq!(ok, 1);
    assert_eq!(h.get_task("t1", None).unwrap().state, TaskState::Working);
}

#[test]
fn storage_can_be_handed_in() {
    let h = SimpleAgentHandler::with_storage(TaskStorage::new());
    assert_eq!(h.storage().subscriptions.subscriber_count("t1"), 0);
    assert!(!h.storage().tasks.task_exists("t1"));
}

#[test]
fn state_machine_edges() {
    assert!(TaskState::Submitted.can_transition_to(TaskState::Working));
    assert!(!TaskState::Submitted.can_transition_to(TaskState::Canceled));
    assert!(TaskState::InputRequired.can_transition_to(TaskState::Working));
    assert!(!TaskState::Completed.can_transition_to(TaskState::Working));
    assert!(TaskState::Failed.is_terminal());
    assert!(!TaskState::InputRequired.is_terminal());
}
