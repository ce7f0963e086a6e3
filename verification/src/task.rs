//! Tasks: independent units of work, each made of a body and the one argument
//! that the body is to run on.
//!
//! A task is spawned, runs, and is completed, in that order and once. Body and
//! argument move into the task when it is spawned, so the spawner keeps no
//! access to either. Spawning runs nothing: whoever schedules tasks moves each
//! one to the thread of control that is to run it, and runs it there.

use vstd::prelude::*;

verus! {

/// Where a task is in its life.
#[derive(Clone, Copy, Debug, PartialEq, Eq, Structural)]
pub enum TaskState {
    /// Spawned and not yet started.
    Spawned,
    /// Started: its body is at work on the argument.
    Running,
    /// Its body has returned.
    Completed,
}

/// What a task is, mathematically: its place in its life and, until it
/// starts, the body and the argument that wait in it.
pub enum TaskModel<A, F> {
    Spawned { body: F, argument: A },
    Running,
    Completed,
}

impl<A, F> TaskModel<A, F> {
    /// Where the task is in its life.
    pub open spec fn state(self) -> TaskState {
        match self {
            TaskModel::Spawned { .. } => TaskState::Spawned,
            TaskModel::Running => TaskState::Running,
            TaskModel::Completed => TaskState::Completed,
        }
    }

    /// What a start hands out: body and argument, if the task has not
    /// started yet.
    pub open spec fn work(self) -> Option<(F, A)> {
        match self {
            TaskModel::Spawned { body, argument } => Some((body, argument)),
            _ => None,
        }
    }

    /// The task after an attempt to start it.
    pub open spec fn started(self) -> Self {
        match self {
            TaskModel::Spawned { body, argument } => TaskModel::Running,
            other => other,
        }
    }

    /// The task after its body is reported to have returned.
    pub open spec fn completed(self) -> Self {
        match self {
            TaskModel::Running => TaskModel::Completed,
            other => other,
        }
    }
}

/// A task whose body takes an argument of type `A`.
pub struct Task<A, F: FnOnce(A)> {
    state: TaskState,
    work: Option<(F, A)>,
}

impl<A, F: FnOnce(A)> View for Task<A, F> {
    type V = TaskModel<A, F>;

    closed spec fn view(&self) -> TaskModel<A, F> {
        match (self.state, self.work) {
            (TaskState::Spawned, Some((body, argument))) => TaskModel::Spawned { body, argument },
            (TaskState::Completed, _) => TaskModel::Completed,
            _ => TaskModel::Running,
        }
    }
}

impl<A, F: FnOnce(A)> Task<A, F> {
    #[verifier::type_invariant]
    spec fn well_formed(self) -> bool {
        &&& self.state is Spawned <==> self.work is Some
        &&& self.work matches Some((body, argument)) ==> body.requires((argument,))
    }

    /// Creates the task that is to run `body` on `argument`. Nothing runs
    /// yet, so the spawner never waits for the task.
    pub fn spawn(body: F, argument: A) -> (task: Task<A, F>)
        requires
            body.requires((argument,)),
        ensures
            task@ == (TaskModel::Spawned { body, argument }),
    {
        Task { state: TaskState::Spawned, work: Some((body, argument)) }
    }

    /// Where the task is in its life.
    pub fn state(&self) -> (state: TaskState)
        ensures
            state == self@.state(),
    {
        proof {
            use_type_invariant(self);
        }
        self.state
    }

    /// Starts the task: hands out the body and the argument that it may be
    /// called on. `None` says that the task had started before; nothing
    /// changes then.
    pub fn start(&mut self) -> (work: Option<(F, A)>)
        ensures
            work == old(self)@.work(),
            final(self)@ == old(self)@.started(),
            work matches Some((body, argument)) ==> body.requires((argument,)),
    {
        proof {
            use_type_invariant(&*self);
        }
        let mut taken = Task { state: TaskState::Running, work: None };
        std::mem::swap(self, &mut taken);
        match taken.state {
            TaskState::Spawned => taken.work,
            _ => {
                *self = taken;
                None
            },
        }
    }

    /// Records that the body has returned. The answer says whether the task
    /// was running; nothing changes otherwise.
    pub fn complete(&mut self) -> (was_running: bool)
        ensures
            was_running == (old(self)@ is Running),
            final(self)@ == old(self)@.completed(),
    {
        proof {
            use_type_invariant(&*self);
        }
        let mut taken = Task { state: TaskState::Completed, work: None };
        std::mem::swap(self, &mut taken);
        match taken.state {
            TaskState::Running => true,
            _ => {
                *self = taken;
                false
            },
        }
    }

    /// Takes the task through its life: starts it, calls the body on the
    /// argument and completes it. The answer says whether the body ran; a task
    /// that had started before is left as it was. A body that never returns
    /// leaves its task running; nobody else is told.
    pub fn run(&mut self) -> (ran: bool)
        ensures
            ran == (old(self)@ is Spawned),
            old(self)@ matches TaskModel::Spawned { body, argument } ==> final(self)@
                == TaskModel::<A, F>::Completed && body.ensures((argument,), ()),
            !(old(self)@ is Spawned) ==> final(self)@ == old(self)@,
    {
        match self.start() {
            Some((body, argument)) => {
                body(argument);
                self.complete();
                true
            },
            None => false,
        }
    }
}

/// What may happen to a task.
pub enum TaskEvent {
    /// An attempt to start it.
    Start,
    /// A report that its body has returned.
    Complete,
}

impl<A, F> TaskModel<A, F> {
    /// The task after the events of `events`, first to last.
    pub open spec fn after(self, events: Seq<TaskEvent>) -> Self
        decreases events.len(),
    {
        if events.len() == 0 {
            self
        } else {
            let before = self.after(events.drop_last());
            match events.last() {
                TaskEvent::Start => before.started(),
                TaskEvent::Complete => before.completed(),
            }
        }
    }

    /// How many of the start attempts in `events` handed out the body.
    pub open spec fn bodies_started(self, events: Seq<TaskEvent>) -> nat
        decreases events.len(),
    {
        if events.len() == 0 {
            0
        } else {
            let earlier = self.bodies_started(events.drop_last());
            match (events.last(), self.after(events.drop_last())) {
                (TaskEvent::Start, TaskModel::Spawned { body, argument }) => earlier + 1,
                _ => earlier,
            }
        }
    }

    /// How many of the completion reports in `events` found the task running.
    pub open spec fn bodies_completed(self, events: Seq<TaskEvent>) -> nat
        decreases events.len(),
    {
        if events.len() == 0 {
            0
        } else {
            let earlier = self.bodies_completed(events.drop_last());
            match (events.last(), self.after(events.drop_last())) {
                (TaskEvent::Complete, TaskModel::Running) => earlier + 1,
                _ => earlier,
            }
        }
    }
}

/// A task runs once at most: whatever is attempted on a spawned task, and in
/// whatever order, its body is handed out at most once and completed at most
/// once, and the task is completed exactly when its one body has returned.
pub proof fn lemma_task_runs_once<A, F>(body: F, argument: A, events: Seq<TaskEvent>)
    ensures
        ({
            let task = TaskModel::Spawned { body, argument };
            let bodies = task.bodies_started(events);
            let finished = task.bodies_completed(events);
            &&& finished <= bodies <= 1
            &&& task.after(events) is Spawned <==> bodies == 0
            &&& task.after(events) is Running <==> bodies == 1 && finished == 0
            &&& task.after(events) is Completed <==> finished == 1
        }),
    decreases events.len(),
{
    if events.len() > 0 {
        lemma_task_runs_once(body, argument, events.drop_last());
    }
}

} // verus!
