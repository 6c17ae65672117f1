use vstd::prelude::*;
use crate::model::{copy_strings, strings_view, Message, MessageView};
use crate::state::TaskState;
use crate::store::opt_message_view;

verus! {

/// A change of a task's state, as seen by subscribers.
#[derive(Debug)]
pub struct StatusEvent {
    pub task_id: String,
    pub state: TaskState,
    pub message: Option<Message>,
    /// Last status event of its task: none follows.
    pub is_final: bool,
}

/// An output produced for a task.
#[derive(Debug)]
pub struct ArtifactEvent {
    pub task_id: String,
    pub artifact_id: String,
    pub parts: Vec<String>,
    /// Extends an earlier artifact of the same identifier instead of replacing it.
    pub append: bool,
}

#[derive(Debug)]
pub enum UpdateEvent {
    Status(StatusEvent),
    Artifact(ArtifactEvent),
}

pub struct StatusEventView {
    pub task_id: Seq<char>,
    pub state: TaskState,
    pub message: Option<MessageView>,
    pub is_final: bool,
}

pub struct ArtifactEventView {
    pub task_id: Seq<char>,
    pub artifact_id: Seq<char>,
    pub parts: Seq<Seq<char>>,
    pub append: bool,
}

pub enum UpdateEventView {
    Status(StatusEventView),
    Artifact(ArtifactEventView),
}

impl View for StatusEvent {
    type V = StatusEventView;

    open spec fn view(&self) -> StatusEventView {
        StatusEventView {
            task_id: self.task_id@,
            state: self.state,
            message: opt_message_view(self.message),
            is_final: self.is_final,
        }
    }
}

impl View for ArtifactEvent {
    type V = ArtifactEventView;

    open spec fn view(&self) -> ArtifactEventView {
        ArtifactEventView {
            task_id: self.task_id@,
            artifact_id: self.artifact_id@,
            parts: strings_view(self.parts@),
            append: self.append,
        }
    }
}

impl View for UpdateEvent {
    type V = UpdateEventView;

    open spec fn view(&self) -> UpdateEventView {
        match self {
            UpdateEvent::Status(e) => UpdateEventView::Status(e@),
            UpdateEvent::Artifact(e) => UpdateEventView::Artifact(e@),
        }
    }
}

impl StatusEvent {
    pub fn duplicate(&self) -> (r: StatusEvent)
        ensures
            r@ == self@,
    {
        let message = match &self.message {
            Some(m) => Some(m.duplicate()),
            None => None,
        };
        StatusEvent { task_id: self.task_id.clone(), state: self.state, message, is_final: self.is_final }
    }
}

impl ArtifactEvent {
    pub fn duplicate(&self) -> (r: ArtifactEvent)
        ensures
            r@ == self@,
    {
        ArtifactEvent {
            task_id: self.task_id.clone(),
            artifact_id: self.artifact_id.clone(),
            parts: copy_strings(&self.parts),
            append: self.append,
        }
    }
}

impl UpdateEvent {
    pub fn duplicate(&self) -> (r: UpdateEvent)
        ensures
            r@ == self@,
    {
        match self {
            UpdateEvent::Status(e) => UpdateEvent::Status(e.duplicate()),
            UpdateEvent::Artifact(e) => UpdateEvent::Artifact(e.duplicate()),
        }
    }
}

} // verus!
