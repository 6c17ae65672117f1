use vstd::prelude::*;

verus! {

/// The lifecycle state of a task.
#[derive(Clone, Copy, Debug, PartialEq, Eq, Structural)]
pub enum TaskState {
    Submitted,
    Working,
    InputRequired,
    Completed,
    Failed,
    Canceled,
}

/// The state every task starts in.
pub open spec fn initial_state() -> TaskState {
    TaskState::Submitted
}

/// Completed, Failed and Canceled admit no further transition.
pub open spec fn terminal(s: TaskState) -> bool {
    s == TaskState::Completed || s == TaskState::Failed || s == TaskState::Canceled
}

/// The edges of the task state machine.
pub open spec fn valid_transition(from: TaskState, to: TaskState) -> bool {
    match from {
        TaskState::Submitted => to == TaskState::Working,
        TaskState::Working => to == TaskState::Completed || to == TaskState::Failed
            || to == TaskState::Canceled || to == TaskState::InputRequired,
        TaskState::InputRequired => to == TaskState::Working,
        _ => false,
    }
}

/// A task may be canceled as long as it has not finished.
pub open spec fn cancelable(s: TaskState) -> bool {
    !terminal(s)
}

impl TaskState {
    pub fn is_terminal(&self) -> (r: bool)
        ensures
            r == terminal(*self),
    {
        match self {
            TaskState::Completed | TaskState::Failed | TaskState::Canceled => true,
            _ => false,
        }
    }

    pub fn can_transition_to(&self, to: TaskState) -> (r: bool)
        ensures
            r == valid_transition(*self, to),
    {
        match self {
            TaskState::Submitted => matches!(to, TaskState::Working),
            TaskState::Working => matches!(
                to,
                TaskState::Completed | TaskState::Failed | TaskState::Canceled
                    | TaskState::InputRequired
            ),
            TaskState::InputRequired => matches!(to, TaskState::Working),
            _ => false,
        }
    }
}

/// No transition leaves a terminal state.
pub proof fn lemma_terminal_is_final(from: TaskState, to: TaskState)
    requires
        terminal(from),
    ensures
        !valid_transition(from, to),
{
}

/// The state reached by attempting `targets` in order from `s`: each attempt
/// that the state machine allows is taken, every other leaves the state as it
/// was.
pub open spec fn replay(s: TaskState, targets: Seq<TaskState>) -> TaskState
    decreases targets.len(),
{
    if targets.len() == 0 {
        s
    } else {
        let prev = replay(s, targets.drop_last());
        if valid_transition(prev, targets.last()) {
            targets.last()
        } else {
            prev
        }
    }
}

/// Once a task is in a terminal state, no sequence of attempts moves it.
pub proof fn lemma_replay_keeps_terminal(s: TaskState, targets: Seq<TaskState>)
    requires
        terminal(s),
    ensures
        replay(s, targets) == s,
    decreases targets.len(),
{
    if targets.len() > 0 {
        lemma_replay_keeps_terminal(s, targets.drop_last());
    }
}

/// Any number of attempts, each a legal first step from the initial state,
/// applied one after another, leave the task either untouched (no attempt)
/// or exactly one legal step away from the initial state.
pub proof fn lemma_racing_first_steps(targets: Seq<TaskState>)
    requires
        forall|i: int| 0 <= i < targets.len() ==> valid_transition(initial_state(), #[trigger] targets[i]),
    ensures
        targets.len() == 0 ==> replay(initial_state(), targets) == initial_state(),
        targets.len() > 0 ==> valid_transition(initial_state(), replay(initial_state(), targets)),
    decreases targets.len(),
{
    if targets.len() > 0 {
        let d = targets.drop_last();
        assert forall|i: int| 0 <= i < d.len() implies valid_transition(initial_state(), #[trigger] d[i]) by {
            assert(d[i] == targets[i]);
        }
        lemma_racing_first_steps(d);
        assert(valid_transition(initial_state(), targets[targets.len() - 1]));
    }
}

} // verus!
