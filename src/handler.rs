use vstd::prelude::*;
use crate::error::HubError;
use crate::event::{ArtifactEvent, StatusEvent, StatusEventView, UpdateEvent, UpdateEventView};
use crate::model::{limited_view, new_task_view, updated_view, Message, MessageView, Task, TaskView};
use crate::notify::{NotificationRegistry, PushConfig, PushConfigView};
use crate::state::{cancelable, terminal, valid_transition, TaskState};
use crate::store::{opt_message_view, TaskStore};
use crate::subs::{
    apply_rule, count_for, distinct_ids, has_id, is_final_status, lemma_removed_id_gone, Rule, SubscriberKind,
    SubscriptionRegistry, SubscriptionView,
};

verus! {

/// The three registries the coordinator works on.
pub struct TaskStorage {
    pub tasks: TaskStore,
    pub notifications: NotificationRegistry,
    pub subscriptions: SubscriptionRegistry,
}

impl TaskStorage {
    pub open spec fn wf(&self) -> bool {
        self.tasks.wf() && self.notifications.wf() && self.subscriptions.wf()
    }

    pub fn new() -> (r: TaskStorage)
        ensures
            r.wf(),
            r.tasks@ == Map::<Seq<char>, TaskView>::empty(),
            r.notifications@ == Map::<Seq<char>, PushConfigView>::empty(),
            r.subscriptions@ == Seq::<SubscriptionView>::empty(),
            r.subscriptions.next_id() == 0,
    {
        TaskStorage {
            tasks: TaskStore::new(),
            notifications: NotificationRegistry::new(),
            subscriptions: SubscriptionRegistry::new(),
        }
    }
}

/// The status event broadcast when a task enters `state`; it is final when
/// the state is terminal.
pub open spec fn status_update(task_id: Seq<char>, state: TaskState, message: Option<MessageView>) -> UpdateEventView {
    UpdateEventView::Status(StatusEventView { task_id, state, message, is_final: terminal(state) })
}

/// A subscription just registered, with nothing delivered yet.
pub open spec fn fresh_subscription(id: u64, task_id: Seq<char>, kind: SubscriberKind) -> SubscriptionView {
    SubscriptionView { id, task_id, kind, pending: Seq::empty() }
}

/// What a stream hands to its consumer.
#[derive(Clone, Copy, Debug, PartialEq, Eq, Structural)]
pub enum StreamKind {
    Status,
    Artifact,
    /// Status and artifact events merged in broadcast order.
    Combined,
}

pub open spec fn subscriber_kind_of(k: StreamKind) -> SubscriberKind {
    match k {
        StreamKind::Status => SubscriberKind::Status,
        StreamKind::Artifact => SubscriberKind::ArtifactsUntilFinal,
        StreamKind::Combined => SubscriberKind::Combined,
    }
}

/// Whether a stream of this kind hands the event on. An artifact stream sees
/// the final status event only as its end.
pub open spec fn stream_yields(k: StreamKind, e: UpdateEventView) -> bool {
    match k {
        StreamKind::Artifact => e is Artifact,
        _ => true,
    }
}

/// A consumer's handle on a live stream: registered when opened, released
/// when it ends or is closed.
#[derive(Debug)]
pub struct UpdateStream {
    pub subscription_id: u64,
    pub task_id: String,
    pub kind: StreamKind,
    pub ended: bool,
}

#[derive(Debug)]
pub enum StreamPoll {
    Item(UpdateEvent),
    /// Nothing has arrived yet.
    Pending,
    /// The stream is over; its subscription is released.
    Ended,
}

/// Coordinates task state, notification settings and subscriptions: every
/// change of a task's state is stored and broadcast to its subscribers.
pub struct SimpleAgentHandler {
    storage: TaskStorage,
}

impl SimpleAgentHandler {
    pub closed spec fn wf(&self) -> bool {
        self.storage.wf()
    }

    pub closed spec fn tasks(&self) -> Map<Seq<char>, TaskView> {
        self.storage.tasks@
    }

    pub closed spec fn configs(&self) -> Map<Seq<char>, PushConfigView> {
        self.storage.notifications@
    }

    pub closed spec fn subs(&self) -> Seq<SubscriptionView> {
        self.storage.subscriptions@
    }

    pub closed spec fn next_sub_id(&self) -> u64 {
        self.storage.subscriptions.next_id()
    }

    pub fn new() -> (r: SimpleAgentHandler)
        ensures
            r.wf(),
            r.tasks() == Map::<Seq<char>, TaskView>::empty(),
            r.configs() == Map::<Seq<char>, PushConfigView>::empty(),
            r.subs() == Seq::<SubscriptionView>::empty(),
            r.next_sub_id() == 0,
    {
        SimpleAgentHandler { storage: TaskStorage::new() }
    }

    pub fn with_storage(storage: TaskStorage) -> (r: SimpleAgentHandler)
        requires
            storage.wf(),
        ensures
            r.wf(),
            r.tasks() == storage.tasks@,
            r.configs() == storage.notifications@,
            r.subs() == storage.subscriptions@,
            r.next_sub_id() == storage.subscriptions.next_id(),
    {
        SimpleAgentHandler { storage }
    }

    pub fn storage(&self) -> (r: &TaskStorage)
        requires
            self.wf(),
        ensures
            r.wf(),
            r.tasks@ == self.tasks(),
            r.notifications@ == self.configs(),
            r.subscriptions@ == self.subs(),
            r.subscriptions.next_id() == self.next_sub_id(),
    {
        &self.storage
    }

    fn broadcast_state(&mut self, task_id: &str, state: TaskState, message: Option<Message>)
        requires
            old(self).wf(),
        ensures
            final(self).wf(),
            final(self).tasks() == old(self).tasks(),
            final(self).configs() == old(self).configs(),
            final(self).next_sub_id() == old(self).next_sub_id(),
            final(self).subs() == apply_rule(
                Rule::Deliver(task_id@, status_update(task_id@, state, opt_message_view(message))),
                old(self).subs(),
            ),
    {
        let event = UpdateEvent::Status(StatusEvent {
            task_id: task_id.to_owned(),
            state,
            message,
            is_final: state.is_terminal(),
        });
        self.storage.subscriptions.broadcast(task_id, &event);
    }

    /// Creates a task in the initial state and announces it.
    pub fn create_task(&mut self, task_id: &str, context_id: &str) -> (r: Result<Task, HubError>)
        requires
            old(self).wf(),
        ensures
            final(self).wf(),
            final(self).configs() == old(self).configs(),
            final(self).next_sub_id() == old(self).next_sub_id(),
            old(self).tasks().contains_key(task_id@) ==> r == Err::<Task, HubError>(HubError::AlreadyExists)
                && final(self).tasks() == old(self).tasks() && final(self).subs() == old(self).subs(),
            !old(self).tasks().contains_key(task_id@) ==> r is Ok
                && r->Ok_0@ == new_task_view(task_id@, context_id@)
                && final(self).tasks() == old(self).tasks().insert(task_id@, new_task_view(task_id@, context_id@))
                && final(self).subs() == apply_rule(
                    Rule::Deliver(task_id@, status_update(task_id@, TaskState::Submitted, None)),
                    old(self).subs(),
                ),
    {
        let r = self.storage.tasks.create_task(task_id, context_id);
        if r.is_ok() {
            self.broadcast_state(task_id, TaskState::Submitted, None);
        }
        r
    }

    pub fn get_task(&self, task_id: &str, history_length: Option<u32>) -> (r: Result<Task, HubError>)
        requires
            self.wf(),
        ensures
            self.tasks().contains_key(task_id@) ==> r is Ok
                && r->Ok_0@ == limited_view(self.tasks()[task_id@], history_length),
            !self.tasks().contains_key(task_id@) ==> r == Err::<Task, HubError>(HubError::NotFound),
    {
        self.storage.tasks.get_task(task_id, history_length)
    }

    /// Moves a task along an edge of the state machine, records the message,
    /// and broadcasts the change.
    pub fn update_task_status(&mut self, task_id: &str, state: TaskState, message: Option<Message>) -> (r: Result<Task, HubError>)
        requires
            old(self).wf(),
        ensures
            final(self).wf(),
            final(self).configs() == old(self).configs(),
            final(self).next_sub_id() == old(self).next_sub_id(),
            !old(self).tasks().contains_key(task_id@) ==> r == Err::<Task, HubError>(HubError::NotFound)
                && final(self).tasks() == old(self).tasks() && final(self).subs() == old(self).subs(),
            old(self).tasks().contains_key(task_id@)
                && !valid_transition(old(self).tasks()[task_id@].state, state)
                ==> r == Err::<Task, HubError>(HubError::InvalidTransition)
                && final(self).tasks() == old(self).tasks() && final(self).subs() == old(self).subs(),
            old(self).tasks().contains_key(task_id@)
                && valid_transition(old(self).tasks()[task_id@].state, state)
                ==> r is Ok
                && r->Ok_0@ == updated_view(old(self).tasks()[task_id@], state, opt_message_view(message))
                && final(self).tasks() == old(self).tasks().insert(task_id@, r->Ok_0@)
                && final(self).subs() == apply_rule(
                    Rule::Deliver(task_id@, status_update(task_id@, state, opt_message_view(message))),
                    old(self).subs(),
                ),
    {
        let announced = match &message {
            Some(m) => Some(m.duplicate()),
            None => None,
        };
        let r = self.storage.tasks.update_task_status(task_id, state, message);
        if r.is_ok() {
            self.broadcast_state(task_id, state, announced);
        }
        r
    }

    /// Cancels an unfinished task and broadcasts the final status.
    pub fn cancel_task(&mut self, task_id: &str) -> (r: Result<Task, HubError>)
        requires
            old(self).wf(),
        ensures
            final(self).wf(),
            final(self).configs() == old(self).configs(),
            final(self).next_sub_id() == old(self).next_sub_id(),
            !old(self).tasks().contains_key(task_id@) ==> r == Err::<Task, HubError>(HubError::NotFound)
                && final(self).tasks() == old(self).tasks() && final(self).subs() == old(self).subs(),
            old(self).tasks().contains_key(task_id@) && !cancelable(old(self).tasks()[task_id@].state)
                ==> r == Err::<Task, HubError>(HubError::InvalidTransition)
                && final(self).tasks() == old(self).tasks() && final(self).subs() == old(self).subs(),
            old(self).tasks().contains_key(task_id@) && cancelable(old(self).tasks()[task_id@].state)
                ==> r is Ok
                && r->Ok_0@ == updated_view(old(self).tasks()[task_id@], TaskState::Canceled, None)
                && final(self).tasks() == old(self).tasks().insert(task_id@, r->Ok_0@)
                && final(self).subs() == apply_rule(
                    Rule::Deliver(task_id@, status_update(task_id@, TaskState::Canceled, None)),
                    old(self).subs(),
                ),
    {
        let r = self.storage.tasks.cancel_task(task_id);
        if r.is_ok() {
            self.broadcast_state(task_id, TaskState::Canceled, None);
        }
        r
    }

    pub fn task_exists(&self, task_id: &str) -> (r: Result<bool, HubError>)
        requires
            self.wf(),
        ensures
            r == Ok::<bool, HubError>(self.tasks().contains_key(task_id@)),
    {
        Ok(self.storage.tasks.task_exists(task_id))
    }
    pub fn set_task_notification(&mut self, config: &PushConfig) -> (r: Result<PushConfig, HubError>)
        requires
            old(self).wf(),
        ensures
            final(self).wf(),
            final(self).tasks() == old(self).tasks(),
            final(self).subs() == old(self).subs(),
            final(self).next_sub_id() == old(self).next_sub_id(),
            r is Ok && r->Ok_0@ == config@,
            final(self).configs() == old(self).configs().insert(config.task_id@, config@),
    {
        self.storage.notifications.set_task_notification(config)
    }

    pub fn get_task_notification(&self, task_id: &str) -> (r: Result<PushConfig, HubError>)
        requires
            self.wf(),
        ensures
            self.configs().contains_key(task_id@) ==> r is Ok && r->Ok_0@ == self.configs()[task_id@],
            !self.configs().contains_key(task_id@) ==> r == Err::<PushConfig, HubError>(HubError::NotFound),
    {
        self.storage.notifications.get_task_notification(task_id)
    }

    pub fn remove_task_notification(&mut self, task_id: &str) -> (r: Result<(), HubError>)
        requires
            old(self).wf(),
        ensures
            final(self).wf(),
            final(self).tasks() == old(self).tasks(),
            final(self).subs() == old(self).subs(),
            final(self).next_sub_id() == old(self).next_sub_id(),
            r == Ok::<(), HubError>(()),
            final(self).configs() == old(self).configs().remove(task_id@),
    {
        self.storage.notifications.remove_task_notification(task_id)
    }

    /// No two live subscriptions share an identifier.
    pub proof fn lemma_subscription_ids_distinct(&self)
        requires
            self.wf(),
        ensures
            distinct_ids(self.subs()),
    {
        self.storage.subscriptions.lemma_ids_distinct();
    }

    /// Whether a subscriber or stream can still be registered.
    pub fn can_subscribe(&self) -> (r: bool)
        ensures
            r == (self.next_sub_id() < u64::MAX),
    {
        self.storage.subscriptions.has_free_id()
    }

    fn subscribe(&mut self, task_id: &str, kind: SubscriberKind) -> (r: u64)
        requires
            old(self).wf(),
            old(self).next_sub_id() < u64::MAX,
        ensures
            final(self).wf(),
            final(self).tasks() == old(self).tasks(),
            final(self).configs() == old(self).configs(),
            r == old(self).next_sub_id(),
            final(self).next_sub_id() == old(self).next_sub_id() + 1,
            final(self).subs() == old(self).subs().push(fresh_subscription(r, task_id@, kind)),
    {
        self.storage.subscriptions.add_subscriber(task_id, kind)
    }

    /// Registers a status subscriber; the identifier is above every one
    /// handed out before.
    pub fn add_status_subscriber(&mut self, task_id: &str) -> (r: Result<u64, HubError>)
        requires
            old(self).wf(),
            old(self).next_sub_id() < u64::MAX,
        ensures
            final(self).wf(),
            final(self).tasks() == old(self).tasks(),
            final(self).configs() == old(self).configs(),
            r == Ok::<u64, HubError>(old(self).next_sub_id()),
            final(self).next_sub_id() == old(self).next_sub_id() + 1,
            final(self).subs() == old(self).subs().push(
                fresh_subscription(old(self).next_sub_id(), task_id@, SubscriberKind::Status),
            ),
    {
        Ok(self.subscribe(task_id, SubscriberKind::Status))
    }

    /// Registers an artifact subscriber; the identifier is above every one
    /// handed out before.
    pub fn add_artifact_subscriber(&mut self, task_id: &str) -> (r: Result<u64, HubError>)
        requires
            old(self).wf(),
            old(self).next_sub_id() < u64::MAX,
        ensures
            final(self).wf(),
            final(self).tasks() == old(self).tasks(),
            final(self).configs() == old(self).configs(),
            r == Ok::<u64, HubError>(old(self).next_sub_id()),
            final(self).next_sub_id() == old(self).next_sub_id() + 1,
            final(self).subs() == old(self).subs().push(
                fresh_subscription(old(self).next_sub_id(), task_id@, SubscriberKind::Artifact),
            ),
    {
        Ok(self.subscribe(task_id, SubscriberKind::Artifact))
    }

    pub fn remove_subscription(&mut self, subscription_id: u64) -> (r: Result<(), HubError>)
        requires
            old(self).wf(),
        ensures
            final(self).wf(),
            final(self).tasks() == old(self).tasks(),
            final(self).configs() == old(self).configs(),
            final(self).next_sub_id() == old(self).next_sub_id(),
            !has_id(old(self).subs(), subscription_id) ==> r == Err::<(), HubError>(HubError::NotFound)
                && final(self).subs() == old(self).subs(),
            has_id(old(self).subs(), subscription_id) ==> r == Ok::<(), HubError>(())
                && final(self).subs() == apply_rule(Rule::DropId(subscription_id), old(self).subs()),
    {
        self.storage.subscriptions.remove_subscription(subscription_id)
    }

    /// Drops every subscriber of the task; the task and its notification
    /// setting stay.
    pub fn remove_task_subscribers(&mut self, task_id: &str) -> (r: Result<(), HubError>)
        requires
            old(self).wf(),
        ensures
            final(self).wf(),
            final(self).tasks() == old(self).tasks(),
            final(self).configs() == old(self).configs(),
            final(self).next_sub_id() == old(self).next_sub_id(),
            r == Ok::<(), HubError>(()),
            final(self).subs() == apply_rule(Rule::DropTask(task_id@), old(self).subs()),
    {
        self.storage.subscriptions.remove_task_subscribers(task_id)
    }

    pub fn get_subscriber_count(&self, task_id: &str) -> (r: Result<usize, HubError>)
        requires
            self.wf(),
        ensures
            r is Ok && r->Ok_0 == count_for(self.subs(), task_id@),
    {
        Ok(self.storage.subscriptions.subscriber_count(task_id))
    }

    pub fn broadcast_status_update(&mut self, task_id: &str, update: StatusEvent) -> (r: Result<(), HubError>)
        requires
            old(self).wf(),
        ensures
            final(self).wf(),
            final(self).tasks() == old(self).tasks(),
            final(self).configs() == old(self).configs(),
            final(self).next_sub_id() == old(self).next_sub_id(),
            r == Ok::<(), HubError>(()),
            final(self).subs() == apply_rule(
                Rule::Deliver(task_id@, UpdateEventView::Status(update@)),
                old(self).subs(),
            ),
    {
        let event = UpdateEvent::Status(update);
        self.storage.subscriptions.broadcast(task_id, &event);
        Ok(())
    }

    pub fn broadcast_artifact_update(&mut self, task_id: &str, update: ArtifactEvent) -> (r: Result<(), HubError>)
        requires
            old(self).wf(),
        ensures
            final(self).wf(),
            final(self).tasks() == old(self).tasks(),
            final(self).configs() == old(self).configs(),
            final(self).next_sub_id() == old(self).next_sub_id(),
            r == Ok::<(), HubError>(()),
            final(self).subs() == apply_rule(
                Rule::Deliver(task_id@, UpdateEventView::Artifact(update@)),
                old(self).subs(),
            ),
    {
        let event = UpdateEvent::Artifact(update);
        self.storage.subscriptions.broadcast(task_id, &event);
        Ok(())
    }

    /// Takes the oldest undelivered event of a subscriber.
    pub fn next_event(&mut self, subscription_id: u64) -> (r: Option<UpdateEvent>)
        requires
            old(self).wf(),
        ensures
            final(self).wf(),
            final(self).tasks() == old(self).tasks(),
            final(self).configs() == old(self).configs(),
            final(self).next_sub_id() == old(self).next_sub_id(),
            forall|i: int| 0 <= i < old(self).subs().len() && old(self).subs()[i].id == subscription_id
                && old(self).subs()[i].pending.len() > 0 ==> r is Some
                && r->Some_0@ == old(self).subs()[i].pending[0]
                && final(self).subs() == old(self).subs().update(i, SubscriptionView {
                    pending: old(self).subs()[i].pending.drop_first(), ..old(self).subs()[i] }),
            forall|i: int| 0 <= i < old(self).subs().len() && old(self).subs()[i].id == subscription_id
                && old(self).subs()[i].pending.len() == 0 ==> r is None && final(self).subs() == old(self).subs(),
            !has_id(old(self).subs(), subscription_id) ==> r is None && final(self).subs() == old(self).subs(),
    {
        self.storage.subscriptions.take_next(subscription_id)
    }

    fn open_stream(&mut self, task_id: &str, kind: StreamKind) -> (r: UpdateStream)
        requires
            old(self).wf(),
            old(self).next_sub_id() < u64::MAX,
        ensures
            final(self).wf(),
            final(self).tasks() == old(self).tasks(),
            final(self).configs() == old(self).configs(),
            final(self).next_sub_id() == old(self).next_sub_id() + 1,
            r.subscription_id == old(self).next_sub_id(),
            r.task_id@ == task_id@,
            r.kind == kind,
            !r.ended,
            final(self).subs() == old(self).subs().push(
                fresh_subscription(old(self).next_sub_id(), task_id@, subscriber_kind_of(kind)),
            ),
    {
        let sk = match kind {
            StreamKind::Status => SubscriberKind::Status,
            StreamKind::Artifact => SubscriberKind::ArtifactsUntilFinal,
            StreamKind::Combined => SubscriberKind::Combined,
        };
        let id = self.subscribe(task_id, sk);
        UpdateStream { subscription_id: id, task_id: task_id.to_owned(), kind, ended: false }
    }

    /// A stream of the task's status events from now on; it ends after the
    /// final one.
    pub fn status_update_stream(&mut self, task_id: &str) -> (r: Result<UpdateStream, HubError>)
        requires
            old(self).wf(),
            old(self).next_sub_id() < u64::MAX,
        ensures
            final(self).wf(),
            final(self).tasks() == old(self).tasks(),
            final(self).configs() == old(self).configs(),
            final(self).next_sub_id() == old(self).next_sub_id() + 1,
            r is Ok,
            r->Ok_0.subscription_id == old(self).next_sub_id(),
            r->Ok_0.task_id@ == task_id@,
            r->Ok_0.kind == StreamKind::Status,
            !r->Ok_0.ended,
            final(self).subs() == old(self).subs().push(
                fresh_subscription(old(self).next_sub_id(), task_id@, SubscriberKind::Status),
            ),
    {
        Ok(self.open_stream(task_id, StreamKind::Status))
    }

    /// A stream of the task's artifact events from now on; it ends when the
    /// task's final status event arrives.
    pub fn artifact_update_stream(&mut self, task_id: &str) -> (r: Result<UpdateStream, HubError>)
        requires
            old(self).wf(),
            old(self).next_sub_id() < u64::MAX,
        ensures
            final(self).wf(),
            final(self).tasks() == old(self).tasks(),
            final(self).configs() == old(self).configs(),
            final(self).next_sub_id() == old(self).next_sub_id() + 1,
            r is Ok,
            r->Ok_0.subscription_id == old(self).next_sub_id(),
            r->Ok_0.task_id@ == task_id@,
            r->Ok_0.kind == StreamKind::Artifact,
            !r->Ok_0.ended,
            final(self).subs() == old(self).subs().push(
                fresh_subscription(old(self).next_sub_id(), task_id@, SubscriberKind::ArtifactsUntilFinal),
            ),
    {
        Ok(self.open_stream(task_id, StreamKind::Artifact))
    }

    /// Status and artifact events of the task in the order they were
    /// broadcast; it ends after the final status event.
    pub fn combined_update_stream(&mut self, task_id: &str) -> (r: Result<UpdateStream, HubError>)
        requires
            old(self).wf(),
            old(self).next_sub_id() < u64::MAX,
        ensures
            final(self).wf(),
            final(self).tasks() == old(self).tasks(),
            final(self).configs() == old(self).configs(),
            final(self).next_sub_id() == old(self).next_sub_id() + 1,
            r is Ok,
            r->Ok_0.subscription_id == old(self).next_sub_id(),
            r->Ok_0.task_id@ == task_id@,
            r->Ok_0.kind == StreamKind::Combined,
            !r->Ok_0.ended,
            final(self).subs() == old(self).subs().push(
                fresh_subscription(old(self).next_sub_id(), task_id@, SubscriberKind::Combined),
            ),
    {
        Ok(self.open_stream(task_id, StreamKind::Combined))
    }

    /// Advances a stream by one step. A final status event ends it and
    /// releases its subscription; so does finding the subscription gone
    /// (removed, or disconnected because its buffer overflowed).
    pub fn poll_stream(&mut self, stream: &mut UpdateStream) -> (r: StreamPoll)
        requires
            old(self).wf(),
        ensures
            final(self).wf(),
            final(self).tasks() == old(self).tasks(),
            final(self).configs() == old(self).configs(),
            final(self).next_sub_id() == old(self).next_sub_id(),
            final(stream).subscription_id == old(stream).subscription_id,
            final(stream).task_id == old(stream).task_id,
            final(stream).kind == old(stream).kind,
            old(stream).ended ==> r is Ended && final(stream).ended && final(self).subs() == old(self).subs(),
            !old(stream).ended && !has_id(old(self).subs(), old(stream).subscription_id) ==> r is Ended
                && final(stream).ended && final(self).subs() == old(self).subs(),
            forall|i: int| 0 <= i < old(self).subs().len() && old(self).subs()[i].id == old(stream).subscription_id
                && old(self).subs()[i].pending.len() == 0 && !old(stream).ended
                ==> r is Pending && !final(stream).ended && final(self).subs() == old(self).subs(),
            forall|i: int| 0 <= i < old(self).subs().len() && old(self).subs()[i].id == old(stream).subscription_id
                && old(self).subs()[i].pending.len() > 0 && !old(stream).ended ==> {
                    let e = old(self).subs()[i].pending[0];
                    let rest = old(self).subs().update(i, SubscriptionView {
                        pending: old(self).subs()[i].pending.drop_first(), ..old(self).subs()[i] });
                    &&& (r is Item <==> stream_yields(old(stream).kind, e))
                    &&& (r is Item ==> r->Item_0@ == e)
                    &&& (!stream_yields(old(stream).kind, e) ==> r is Ended)
                    &&& final(stream).ended == is_final_status(e)
                    &&& final(self).subs() == if is_final_status(e) {
                        apply_rule(Rule::DropId(old(stream).subscription_id), rest)
                    } else {
                        rest
                    }
                },
    {
        if stream.ended {
            return StreamPoll::Ended;
        }
        let id = stream.subscription_id;
        if !self.storage.subscriptions.is_subscribed(id) {
            stream.ended = true;
            return StreamPoll::Ended;
        }
        let ghost before = self.storage.subscriptions@;
        match self.storage.subscriptions.take_next(id) {
            None => StreamPoll::Pending,
            Some(e) => {
                proof {
                    let i = choose|i: int| 0 <= i < before.len() && before[i].id == id;
                    assert(before[i].pending.len() > 0);
                    assert(self.storage.subscriptions@[i].id == id);
                    assert(has_id(self.storage.subscriptions@, id));
                }
                let last = match &e {
                    UpdateEvent::Status(se) => se.is_final,
                    UpdateEvent::Artifact(_) => false,
                };
                let yields = match (stream.kind, &e) {
                    (StreamKind::Artifact, UpdateEvent::Status(_)) => false,
                    _ => true,
                };
                if last {
                    let _ = self.storage.subscriptions.remove_subscription(id);
                    stream.ended = true;
                }
                if yields {
                    StreamPoll::Item(e)
                } else {
                    StreamPoll::Ended
                }
            },
        }
    }

    /// Ends a stream early and releases its subscription, whatever state the
    /// stream was in.
    pub fn close_stream(&mut self, stream: UpdateStream)
        requires
            old(self).wf(),
        ensures
            final(self).wf(),
            final(self).tasks() == old(self).tasks(),
            final(self).configs() == old(self).configs(),
            final(self).next_sub_id() == old(self).next_sub_id(),
            !has_id(final(self).subs(), stream.subscription_id),
            has_id(old(self).subs(), stream.subscription_id) ==> final(self).subs() == apply_rule(
                Rule::DropId(stream.subscription_id),
                old(self).subs(),
            ),
            !has_id(old(self).subs(), stream.subscription_id) ==> final(self).subs() == old(self).subs(),
    {
        let _ = self.storage.subscriptions.remove_subscription(stream.subscription_id);
        proof {
            lemma_removed_id_gone(old(self).subs(), stream.subscription_id);
        }
    }
}

impl Default for SimpleAgentHandler {
    fn default() -> (r: SimpleAgentHandler)
        ensures
            r.wf(),
            r.tasks() == Map::<Seq<char>, TaskView>::empty(),
            r.configs() == Map::<Seq<char>, PushConfigView>::empty(),
            r.subs() == Seq::<SubscriptionView>::empty(),
            r.next_sub_id() == 0,
    {
        SimpleAgentHandler::new()
    }
}

} // verus!
