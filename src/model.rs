use vstd::prelude::*;
use crate::state::{TaskState, initial_state};

verus! {

/// Who wrote a message.
#[derive(Clone, Copy, Debug, PartialEq, Eq, Structural)]
pub enum Role {
    User,
    Agent,
}

/// A message: an identifier, its author and its text parts in order.
#[derive(Debug)]
pub struct Message {
    pub message_id: String,
    pub role: Role,
    pub parts: Vec<String>,
}

pub struct MessageView {
    pub message_id: Seq<char>,
    pub role: Role,
    pub parts: Seq<Seq<char>>,
}

/// A task: identifiers, current state and the messages exchanged so far.
#[derive(Debug)]
pub struct Task {
    pub id: String,
    pub context_id: String,
    pub state: TaskState,
    pub history: Vec<Message>,
}

pub struct TaskView {
    pub id: Seq<char>,
    pub context_id: Seq<char>,
    pub state: TaskState,
    pub history: Seq<MessageView>,
}

pub open spec fn strings_view(v: Seq<String>) -> Seq<Seq<char>> {
    v.map_values(|s: String| s@)
}

pub open spec fn messages_view(v: Seq<Message>) -> Seq<MessageView> {
    v.map_values(|m: Message| m@)
}

impl View for Message {
    type V = MessageView;

    open spec fn view(&self) -> MessageView {
        MessageView { message_id: self.message_id@, role: self.role, parts: strings_view(self.parts@) }
    }
}

impl View for Task {
    type V = TaskView;

    open spec fn view(&self) -> TaskView {
        TaskView {
            id: self.id@,
            context_id: self.context_id@,
            state: self.state,
            history: messages_view(self.history@),
        }
    }
}

/// A fresh task: initial state, no history.
pub open spec fn new_task_view(id: Seq<char>, context_id: Seq<char>) -> TaskView {
    TaskView { id, context_id, state: initial_state(), history: Seq::empty() }
}

/// The last `n` entries of a history, or all of it when it is shorter.
pub open spec fn last_entries<A>(h: Seq<A>, n: nat) -> Seq<A> {
    if n < h.len() {
        h.subrange(h.len() - n, h.len() as int)
    } else {
        h
    }
}

/// A task as returned to a caller that asked for at most `limit` history entries.
pub open spec fn limited_view(t: TaskView, limit: Option<u32>) -> TaskView {
    match limit {
        Some(n) => TaskView { history: last_entries(t.history, n as nat), ..t },
        None => t,
    }
}

/// A task after a status update: new state, message appended when given.
pub open spec fn updated_view(t: TaskView, state: TaskState, message: Option<MessageView>) -> TaskView {
    match message {
        Some(m) => TaskView { state, history: t.history.push(m), ..t },
        None => TaskView { state, ..t },
    }
}

pub fn copy_strings(v: &Vec<String>) -> (r: Vec<String>)
    ensures
        strings_view(r@) == strings_view(v@),
{
    let mut r: Vec<String> = Vec::new();
    let mut i: usize = 0;
    while i < v.len()
        invariant
            i <= v@.len(),
            r@.len() == i,
            forall|j: int| 0 <= j < i ==> r@[j]@ == v@[j]@,
        decreases v@.len() - i,
    {
        r.push(v[i].clone());
        i = i + 1;
    }
    proof {
        assert(strings_view(r@) =~= strings_view(v@));
    }
    r
}

impl Message {
    pub fn new(message_id: &str, role: Role, parts: Vec<String>) -> (r: Message)
        ensures
            r.message_id@ == message_id@,
            r.role == role,
            r.parts == parts,
    {
        Message { message_id: message_id.to_owned(), role, parts }
    }

    /// A deep copy.
    pub fn duplicate(&self) -> (r: Message)
        ensures
            r@ == self@,
    {
        Message { message_id: self.message_id.clone(), role: self.role, parts: copy_strings(&self.parts) }
    }
}

/// Copies `v[start..]`.
pub fn copy_messages_from(v: &Vec<Message>, start: usize) -> (r: Vec<Message>)
    requires
        start <= v@.len(),
    ensures
        messages_view(r@) == messages_view(v@.subrange(start as int, v@.len() as int)),
{
    let mut r: Vec<Message> = Vec::new();
    let mut i: usize = start;
    while i < v.len()
        invariant
            start <= i <= v@.len(),
            r@.len() == i - start,
            forall|j: int| 0 <= j < i - start ==> r@[j]@ == v@[start + j]@,
        decreases v@.len() - i,
    {
        r.push(v[i].duplicate());
        i = i + 1;
    }
    proof {
        assert(messages_view(r@) =~= messages_view(v@.subrange(start as int, v@.len() as int)));
    }
    r
}

impl Task {
    pub fn new(id: &str, context_id: &str) -> (r: Task)
        ensures
            r@ == new_task_view(id@, context_id@),
    {
        let r = Task { id: id.to_owned(), context_id: context_id.to_owned(), state: TaskState::Submitted, history: Vec::new() };
        proof {
            assert(r@.history =~= Seq::<MessageView>::empty());
        }
        r
    }

    /// A copy holding at most `history_length` of the most recent messages.
    pub fn snapshot(&self, history_length: Option<u32>) -> (r: Task)
        ensures
            r@ == limited_view(self@, history_length),
    {
        let len = self.history.len();
        let start: usize = match history_length {
            Some(n) => if (n as usize) < len { len - n as usize } else { 0 },
            None => 0,
        };
        let history = copy_messages_from(&self.history, start);
        proof {
            assert(self.history@.subrange(0, len as int) == self.history@);
            assert(messages_view(self.history@.subrange(start as int, len as int)) =~=
                messages_view(self.history@).subrange(start as int, len as int));
        }
        Task { id: self.id.clone(), context_id: self.context_id.clone(), state: self.state, history }
    }
}

/// A task read back right after its creation is in the initial state, with
/// the identifiers it was created with and no history.
pub proof fn lemma_created_task_reads_back(
    tasks: Map<Seq<char>, TaskView>,
    id: Seq<char>,
    context_id: Seq<char>,
    limit: Option<u32>,
)
    ensures
        ({
            let t = limited_view(tasks.insert(id, new_task_view(id, context_id))[id], limit);
            &&& t.id == id
            &&& t.context_id == context_id
            &&& t.state == initial_state()
            &&& t.history.len() == 0
        }),
{
}

} // verus!
