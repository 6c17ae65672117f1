use vstd::prelude::*;
use crate::error::HubError;
use crate::keyed::Keyed;
use crate::model::{
    limited_view, new_task_view, updated_view, Message, MessageView, Task, TaskView,
};
use crate::state::{cancelable, valid_transition, TaskState};

verus! {

pub open spec fn opt_message_view(m: Option<Message>) -> Option<MessageView> {
    match m {
        Some(x) => Some(x@),
        None => None,
    }
}

/// The tasks, keyed by identifier.
pub struct TaskStore {
    tasks: Keyed<Task>,
}

impl View for TaskStore {
    type V = Map<Seq<char>, TaskView>;

    closed spec fn view(&self) -> Map<Seq<char>, TaskView> {
        self.tasks@.map_values(|t: Task| t@)
    }
}

impl TaskStore {
    pub closed spec fn wf(&self) -> bool {
        self.tasks.wf()
    }

    pub fn new() -> (r: TaskStore)
        ensures
            r.wf(),
            r@ == Map::<Seq<char>, TaskView>::empty(),
    {
        let r = TaskStore { tasks: Keyed::new() };
        assert(r@ =~= Map::<Seq<char>, TaskView>::empty());
        r
    }

    /// Creates a task in the initial state, unless the identifier is taken.
    pub fn create_task(&mut self, task_id: &str, context_id: &str) -> (r: Result<Task, HubError>)
        requires
            old(self).wf(),
        ensures
            final(self).wf(),
            old(self)@.contains_key(task_id@) ==> r == Err::<Task, HubError>(HubError::AlreadyExists)
                && final(self)@ == old(self)@,
            !old(self)@.contains_key(task_id@) ==> r is Ok
                && r->Ok_0@ == new_task_view(task_id@, context_id@)
                && final(self)@ == old(self)@.insert(task_id@, new_task_view(task_id@, context_id@)),
    {
        let key = task_id.to_owned();
        match self.tasks.find(&key) {
            Some(_) => Err(HubError::AlreadyExists),
            None => {
                let t = Task::new(task_id, context_id);
                let out = t.snapshot(None);
                self.tasks.insert_new(key, t);
                proof {
                    assert(self@ =~= old(self)@.insert(task_id@, new_task_view(task_id@, context_id@)));
                }
                Ok(out)
            },
        }
    }

    /// A copy of the task, with at most `history_length` recent messages.
    pub fn get_task(&self, task_id: &str, history_length: Option<u32>) -> (r: Result<Task, HubError>)
        requires
            self.wf(),
        ensures
            self@.contains_key(task_id@) ==> r is Ok
                && r->Ok_0@ == limited_view(self@[task_id@], history_length),
            !self@.contains_key(task_id@) ==> r == Err::<Task, HubError>(HubError::NotFound),
    {
        let key = task_id.to_owned();
        match self.tasks.find(&key) {
            Some(i) => Ok(self.tasks.value_at(i).snapshot(history_length)),
            None => Err(HubError::NotFound),
        }
    }

    /// Moves the task to `state` along an edge of the state machine, appending
    /// `message` to its history when one is given.
    pub fn update_task_status(&mut self, task_id: &str, state: TaskState, message: Option<Message>) -> (r: Result<Task, HubError>)
        requires
            old(self).wf(),
        ensures
            final(self).wf(),
            !old(self)@.contains_key(task_id@) ==> r == Err::<Task, HubError>(HubError::NotFound)
                && final(self)@ == old(self)@,
            old(self)@.contains_key(task_id@) && !valid_transition(old(self)@[task_id@].state, state)
                ==> r == Err::<Task, HubError>(HubError::InvalidTransition) && final(self)@ == old(self)@,
            old(self)@.contains_key(task_id@) && valid_transition(old(self)@[task_id@].state, state)
                ==> r is Ok
                && r->Ok_0@ == updated_view(old(self)@[task_id@], state, opt_message_view(message))
                && final(self)@ == old(self)@.insert(task_id@, r->Ok_0@),
    {
        let key = task_id.to_owned();
        match self.tasks.find(&key) {
            None => Err(HubError::NotFound),
            Some(i) => {
                let cur = self.tasks.value_at(i);
                if !cur.state.can_transition_to(state) {
                    return Err(HubError::InvalidTransition);
                }
                let mut t = cur.snapshot(None);
                t.state = state;
                match message {
                    Some(m) => {
                        t.history.push(m);
                    },
                    None => {},
                }
                proof {
                    assert(t@.history =~= updated_view(old(self)@[task_id@], state, opt_message_view(message)).history);
                }
                let out = t.snapshot(None);
                self.tasks.replace_at(i, t);
                proof {
                    assert(self@ =~= old(self)@.insert(task_id@, out@));
                }
                Ok(out)
            },
        }
    }

    /// Moves an unfinished task to Canceled.
    pub fn cancel_task(&mut self, task_id: &str) -> (r: Result<Task, HubError>)
        requires
            old(self).wf(),
        ensures
            final(self).wf(),
            !old(self)@.contains_key(task_id@) ==> r == Err::<Task, HubError>(HubError::NotFound)
                && final(self)@ == old(self)@,
            old(self)@.contains_key(task_id@) && !cancelable(old(self)@[task_id@].state)
                ==> r == Err::<Task, HubError>(HubError::InvalidTransition) && final(self)@ == old(self)@,
            old(self)@.contains_key(task_id@) && cancelable(old(self)@[task_id@].state)
                ==> r is Ok
                && r->Ok_0@ == updated_view(old(self)@[task_id@], TaskState::Canceled, None)
                && final(self)@ == old(self)@.insert(task_id@, r->Ok_0@),
    {
        let key = task_id.to_owned();
        match self.tasks.find(&key) {
            None => Err(HubError::NotFound),
            Some(i) => {
                let cur = self.tasks.value_at(i);
                if cur.state.is_terminal() {
                    return Err(HubError::InvalidTransition);
                }
                let mut t = cur.snapshot(None);
                t.state = TaskState::Canceled;
                let out = t.snapshot(None);
                self.tasks.replace_at(i, t);
                proof {
                    assert(out@ == updated_view(old(self)@[task_id@], TaskState::Canceled, None));
                    assert(self@ =~= old(self)@.insert(task_id@, out@));
                }
                Ok(out)
            },
        }
    }

    pub fn task_exists(&self, task_id: &str) -> (r: bool)
        requires
            self.wf(),
        ensures
            r == self@.contains_key(task_id@),
    {
        let key = task_id.to_owned();
        self.tasks.find(&key).is_some()
    }
}

} // verus!
