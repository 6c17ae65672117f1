use vstd::prelude::*;
use crate::error::HubError;
use crate::keyed::Keyed;

verus! {

/// Where push notifications for a task go. The hub only stores it.
#[derive(Debug)]
pub struct PushConfig {
    pub task_id: String,
    pub url: String,
    pub token: Option<String>,
}

pub struct PushConfigView {
    pub task_id: Seq<char>,
    pub url: Seq<char>,
    pub token: Option<Seq<char>>,
}

impl View for PushConfig {
    type V = PushConfigView;

    open spec fn view(&self) -> PushConfigView {
        PushConfigView {
            task_id: self.task_id@,
            url: self.url@,
            token: match self.token {
                Some(t) => Some(t@),
                None => None,
            },
        }
    }
}

impl PushConfig {
    pub fn new(task_id: &str, url: &str, token: Option<String>) -> (r: PushConfig)
        ensures
            r.task_id@ == task_id@,
            r.url@ == url@,
            r.token == token,
    {
        PushConfig { task_id: task_id.to_owned(), url: url.to_owned(), token }
    }

    pub fn duplicate(&self) -> (r: PushConfig)
        ensures
            r@ == self@,
    {
        let token = match &self.token {
            Some(t) => Some(t.clone()),
            None => None,
        };
        PushConfig { task_id: self.task_id.clone(), url: self.url.clone(), token }
    }
}

/// Push-notification settings, at most one per task identifier. Whether the
/// task exists is not consulted: settings may come before the task.
pub struct NotificationRegistry {
    configs: Keyed<PushConfig>,
}

impl View for NotificationRegistry {
    type V = Map<Seq<char>, PushConfigView>;

    closed spec fn view(&self) -> Map<Seq<char>, PushConfigView> {
        self.configs@.map_values(|c: PushConfig| c@)
    }
}

impl NotificationRegistry {
    pub closed spec fn wf(&self) -> bool {
        self.configs.wf()
    }

    pub fn new() -> (r: NotificationRegistry)
        ensures
            r.wf(),
            r@ == Map::<Seq<char>, PushConfigView>::empty(),
    {
        let r = NotificationRegistry { configs: Keyed::new() };
        assert(r@ =~= Map::<Seq<char>, PushConfigView>::empty());
        r
    }

    /// Stores the setting under its task identifier, replacing any earlier one.
    pub fn set_task_notification(&mut self, config: &PushConfig) -> (r: Result<PushConfig, HubError>)
        requires
            old(self).wf(),
        ensures
            final(self).wf(),
            r is Ok && r->Ok_0@ == config@,
            final(self)@ == old(self)@.insert(config.task_id@, config@),
    {
        let stored = config.duplicate();
        match self.configs.find(&config.task_id) {
            Some(i) => self.configs.replace_at(i, stored),
            None => self.configs.insert_new(config.task_id.clone(), stored),
        }
        proof {
            assert(self@ =~= old(self)@.insert(config.task_id@, config@));
        }
        Ok(config.duplicate())
    }

    pub fn get_task_notification(&self, task_id: &str) -> (r: Result<PushConfig, HubError>)
        requires
            self.wf(),
        ensures
            self@.contains_key(task_id@) ==> r is Ok && r->Ok_0@ == self@[task_id@],
            !self@.contains_key(task_id@) ==> r == Err::<PushConfig, HubError>(HubError::NotFound),
    {
        let key = task_id.to_owned();
        match self.configs.find(&key) {
            Some(i) => Ok(self.configs.value_at(i).duplicate()),
            None => Err(HubError::NotFound),
        }
    }

    /// Drops the setting of a task; succeeds whether or not one was there.
    pub fn remove_task_notification(&mut self, task_id: &str) -> (r: Result<(), HubError>)
        requires
            old(self).wf(),
        ensures
            final(self).wf(),
            r == Ok::<(), HubError>(()),
            final(self)@ == old(self)@.remove(task_id@),
    {
        let key = task_id.to_owned();
        match self.configs.find(&key) {
            Some(i) => self.configs.remove_at(i),
            None => {},
        }
        proof {
            assert(self@ =~= old(self)@.remove(task_id@));
        }
        Ok(())
    }
}

/// Removing the setting of a task twice in a row succeeds both times and
/// leaves the registry as one removal does.
pub proof fn lemma_remove_notification_idempotent(m: Map<Seq<char>, PushConfigView>, task_id: Seq<char>)
    ensures
        m.remove(task_id).remove(task_id) == m.remove(task_id),
        !m.remove(task_id).contains_key(task_id),
{
    assert(m.remove(task_id).remove(task_id) =~= m.remove(task_id));
}

} // verus!
