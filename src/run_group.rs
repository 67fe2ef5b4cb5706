use vstd::prelude::*;

verus! {

/// Where a supervised task stands in the shutdown sequence.
#[derive(Clone, Copy, Debug, PartialEq, Eq, Structural)]
pub enum TaskState {
    Running,
    ShutdownRequested,
    Draining,
    Stopped,
}

/// Order of the states: a task only moves forward.
pub open spec fn rank(s: TaskState) -> nat {
    match s {
        TaskState::Running => 0,
        TaskState::ShutdownRequested => 1,
        TaskState::Draining => 2,
        TaskState::Stopped => 3,
    }
}

/// The run group's bookkeeping, as mathematical values.
pub struct RunGroupView {
    pub tasks: Seq<TaskState>,
    pub shutdown_sent: bool,
    pub first_error: Option<Seq<char>>,
}

/// Bookkeeping of a run group: the long-running tasks it launched, whether
/// the shutdown broadcast fired, and the first error a task returned.
pub struct RunGroupState {
    tasks: Vec<TaskState>,
    shutdown_sent: bool,
    first_error: Option<String>,
}

impl View for RunGroupState {
    type V = RunGroupView;

    closed spec fn view(&self) -> RunGroupView {
        RunGroupView {
            tasks: self.tasks@,
            shutdown_sent: self.shutdown_sent,
            first_error: match self.first_error {
                Some(e) => Some(e@),
                None => None,
            },
        }
    }
}

/// Once the broadcast fired, no task is still running as if nothing happened.
pub open spec fn group_wf(g: RunGroupView) -> bool {
    g.shutdown_sent ==> forall|i: int| 0 <= i < g.tasks.len() ==> #[trigger] g.tasks[i] != TaskState::Running
}

/// Every task stands where it stood or further on.
pub open spec fn moved_forward(a: RunGroupView, b: RunGroupView) -> bool {
    &&& a.tasks.len() <= b.tasks.len()
    &&& forall|i: int| 0 <= i < a.tasks.len() ==> rank(a.tasks[i]) <= rank(#[trigger] b.tasks[i])
    &&& (a.shutdown_sent ==> b.shutdown_sent)
    &&& (a.first_error is Some ==> b.first_error == a.first_error)
}

impl RunGroupState {
    /// A group with no task.
    pub fn new() -> (r: RunGroupState)
        ensures
            r@.tasks == Seq::<TaskState>::empty(),
            !r@.shutdown_sent,
            r@.first_error is None,
    {
        let r = RunGroupState { tasks: Vec::new(), shutdown_sent: false, first_error: None };
        assert(r@.tasks =~= Seq::<TaskState>::empty());
        r
    }

    /// Registers a task that was launched; returns its index. A task added
    /// after the broadcast is told to stop at once.
    pub fn add(&mut self) -> (r: usize)
        requires
            group_wf(old(self)@),
        ensures
            group_wf(final(self)@),
            moved_forward(old(self)@, final(self)@),
            r == old(self)@.tasks.len(),
            final(self)@.tasks == old(self)@.tasks.push(
                if old(self)@.shutdown_sent {
                    TaskState::ShutdownRequested
                } else {
                    TaskState::Running
                },
            ),
            final(self)@.shutdown_sent == old(self)@.shutdown_sent,
            final(self)@.first_error == old(self)@.first_error,
    {
        let r = self.tasks.len();
        let state = if self.shutdown_sent {
            TaskState::ShutdownRequested
        } else {
            TaskState::Running
        };
        self.tasks.push(state);
        r
    }

    /// The interruption or termination signal arrived: every running task is
    /// asked to stop.
    pub fn broadcast_shutdown(&mut self)
        requires
            group_wf(old(self)@),
        ensures
            group_wf(final(self)@),
            moved_forward(old(self)@, final(self)@),
            final(self)@.shutdown_sent,
            final(self)@.first_error == old(self)@.first_error,
            final(self)@.tasks.len() == old(self)@.tasks.len(),
            forall|i: int|
                0 <= i < old(self)@.tasks.len() ==> #[trigger] final(self)@.tasks[i] == if old(self)@.tasks[i]
                    == TaskState::Running {
                    TaskState::ShutdownRequested
                } else {
                    old(self)@.tasks[i]
                },
    {
        let ghost start = self@;
        let mut i: usize = 0;
        while i < self.tasks.len()
            invariant
                i <= self.tasks@.len(),
                self.tasks@.len() == start.tasks.len(),
                self.first_error == old(self).first_error,
                start == old(self)@,
                forall|k: int|
                    0 <= k < i ==> #[trigger] self.tasks@[k] == if start.tasks[k] == TaskState::Running {
                        TaskState::ShutdownRequested
                    } else {
                        start.tasks[k]
                    },
                forall|k: int| i <= k < self.tasks@.len() ==> #[trigger] self.tasks@[k] == start.tasks[k],
            decreases self.tasks@.len() - i,
        {
            if self.tasks[i] == TaskState::Running {
                self.tasks.set(i, TaskState::ShutdownRequested);
            }
            i = i + 1;
        }
        self.shutdown_sent = true;
    }

    /// Task `i` saw the shutdown request and is finishing its work.
    pub fn begin_draining(&mut self, i: usize)
        requires
            group_wf(old(self)@),
        ensures
            group_wf(final(self)@),
            moved_forward(old(self)@, final(self)@),
            final(self)@.shutdown_sent == old(self)@.shutdown_sent,
            final(self)@.first_error == old(self)@.first_error,
            final(self)@.tasks == if i < old(self)@.tasks.len() && old(self)@.tasks[i as int]
                == TaskState::ShutdownRequested {
                old(self)@.tasks.update(i as int, TaskState::Draining)
            } else {
                old(self)@.tasks
            },
    {
        if i < self.tasks.len() && self.tasks[i] == TaskState::ShutdownRequested {
            self.tasks.set(i, TaskState::Draining);
        }
    }

    /// Task `i` returned, with `error` where it failed. The first error that
    /// any task returned is kept.
    pub fn task_finished(&mut self, i: usize, error: Option<String>)
        requires
            group_wf(old(self)@),
        ensures
            group_wf(final(self)@),
            moved_forward(old(self)@, final(self)@),
            final(self)@.shutdown_sent == old(self)@.shutdown_sent,
            final(self)@.tasks == if i < old(self)@.tasks.len() {
                old(self)@.tasks.update(i as int, TaskState::Stopped)
            } else {
                old(self)@.tasks
            },
            final(self)@.first_error == if old(self)@.first_error is None && i < old(self)@.tasks.len()
                && error is Some {
                Some(error.unwrap()@)
            } else {
                old(self)@.first_error
            },
    {
        if i < self.tasks.len() {
            self.tasks.set(i, TaskState::Stopped);
            if self.first_error.is_none() && error.is_some() {
                self.first_error = error;
            }
        }
    }

    /// Whether every task has stopped.
    pub fn all_stopped(&self) -> (r: bool)
        ensures
            r == forall|k: int| 0 <= k < self@.tasks.len() ==> #[trigger] self@.tasks[k] == TaskState::Stopped,
    {
        let mut i: usize = 0;
        while i < self.tasks.len()
            invariant
                i <= self@.tasks.len(),
                self@.tasks == self.tasks@,
                forall|k: int| 0 <= k < i ==> #[trigger] self@.tasks[k] == TaskState::Stopped,
            decreases self.tasks@.len() - i,
        {
            if self.tasks[i] != TaskState::Stopped {
                return false;
            }
            i = i + 1;
        }
        true
    }

    /// What the group returns once every task stopped: the first error, if any.
    pub fn outcome(&self) -> (r: Result<(), String>)
        ensures
            match r {
                Ok(()) => self@.first_error is None,
                Err(e) => self@.first_error == Some(e@),
            },
    {
        match &self.first_error {
            Some(e) => Err(e.clone()),
            None => Ok(()),
        }
    }
}

} // verus!
