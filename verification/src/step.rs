//! What a caller is asked to do, what it reports back, and how a list of
//! steps is walked: one step at a time, in order, stopping for good at the
//! first failure.

use crate::kind::NamespaceType;
use vstd::prelude::*;

verus! {

/// `ECHILD`: there is no child to wait for.
pub const ECHILD: i32 = 10;

/// A token that one side of the handshake sends to the other. On the wire
/// all four are the same success token; the names say what each one means
/// where it stands.
#[derive(Clone, Copy, PartialEq, Eq, Debug, Structural)]
pub enum Message {
    /// The child has left for its new user namespace.
    UserNsReady,
    /// The parent has written the id maps of the child.
    MappingsWritten,
    /// The child has made every dependent namespace.
    DependentNsReady,
    /// The parent has mounted every namespace; the child may go.
    Persisted,
}

/// One operation on the system, to be carried out by the caller.
#[derive(Clone, Debug, PartialEq, Eq)]
pub enum Step {
    /// Create the directory and all its missing parents. A directory that
    /// is there already is no failure.
    CreateDirAll { path: String },
    /// Create an empty regular file, the target of a later mount.
    CreateFile { path: String },
    /// Open the file for reading, to see that it is there, and close it.
    OpenReadOnly { path: String },
    /// `unshare(2)` with the flag of the kind.
    Unshare { kind: NamespaceType },
    /// `sethostname(2)`.
    SetHostname { name: String },
    /// Bind-mount `source` onto `target`, recursively: file system type
    /// `none`, flags `MS_BIND | MS_REC`, no data.
    BindMount { source: String, target: String },
    /// `fork(2)`. Both processes that come out of it report: the parent
    /// [`Outcome::Parent`], the child [`Outcome::Child`].
    Fork,
    /// Close the pipe ends that belong to the other side.
    ClosePeerEnds,
    /// Write one token to the other side.
    Send { message: Message },
    /// Block until one token from the other side has been read.
    Await { message: Message },
    /// Open the file for writing only, write all of `data` in one
    /// operation, and close the file whether or not the write succeeded.
    WriteFile { path: String, data: String },
    /// `setresuid(2)` with `uid` as real, effective and saved id.
    SetResUid { uid: u32 },
    /// `setresgid(2)` with `gid` as real, effective and saved id.
    SetResGid { gid: u32 },
    /// Close the pipe ends of this side.
    CloseChannels,
    /// Block until the child has terminated, and reap it.
    WaitChild,
    /// Leave the process at once with this exit code.
    Exit { code: i32 },
}

/// A [`Step`] as a mathematical value.
pub enum StepView {
    CreateDirAll { path: Seq<char> },
    CreateFile { path: Seq<char> },
    OpenReadOnly { path: Seq<char> },
    Unshare { kind: NamespaceType },
    SetHostname { name: Seq<char> },
    BindMount { source: Seq<char>, target: Seq<char> },
    Fork,
    ClosePeerEnds,
    Send { message: Message },
    Await { message: Message },
    WriteFile { path: Seq<char>, data: Seq<char> },
    SetResUid { uid: u32 },
    SetResGid { gid: u32 },
    CloseChannels,
    WaitChild,
    Exit { code: i32 },
}

impl View for Step {
    type V = StepView;

    open spec fn view(&self) -> StepView {
        match *self {
            Step::CreateDirAll { path } => StepView::CreateDirAll { path: path@ },
            Step::CreateFile { path } => StepView::CreateFile { path: path@ },
            Step::OpenReadOnly { path } => StepView::OpenReadOnly { path: path@ },
            Step::Unshare { kind } => StepView::Unshare { kind },
            Step::SetHostname { name } => StepView::SetHostname { name: name@ },
            Step::BindMount { source, target } => StepView::BindMount {
                source: source@,
                target: target@,
            },
            Step::Fork => StepView::Fork,
            Step::ClosePeerEnds => StepView::ClosePeerEnds,
            Step::Send { message } => StepView::Send { message },
            Step::Await { message } => StepView::Await { message },
            Step::WriteFile { path, data } => StepView::WriteFile { path: path@, data: data@ },
            Step::SetResUid { uid } => StepView::SetResUid { uid },
            Step::SetResGid { gid } => StepView::SetResGid { gid },
            Step::CloseChannels => StepView::CloseChannels,
            Step::WaitChild => StepView::WaitChild,
            Step::Exit { code } => StepView::Exit { code },
        }
    }
}

/// A list of steps as a mathematical value.
pub open spec fn plan_view(steps: Seq<Step>) -> Seq<StepView> {
    steps.map_values(|step: Step| step@)
}

/// What became of a step.
#[derive(Clone, Copy, PartialEq, Eq, Debug, Structural)]
pub enum Outcome {
    /// The step has been carried out.
    Done,
    /// The system refused the step, with this error number.
    Failed { errno: i32 },
    /// The fork succeeded and this is the parent; `child` is the new
    /// process.
    Parent { child: i32 },
    /// The fork succeeded and this is the child.
    Child,
}

/// The kinds of failure.
#[derive(Clone, Copy, PartialEq, Eq, Debug, Structural)]
pub enum ErrorClass {
    /// The request itself cannot be served.
    Configuration,
    /// A directory or file could not be created, or a namespace link could
    /// not be opened.
    Resource,
    /// The kernel refused a call that changes namespaces, names, ids or
    /// mounts.
    Kernel,
    /// The fork, the pipes, the wait, or the worker itself failed.
    Synchronization,
    /// An id map could not be written.
    MappingWrite,
}

/// Why a setup did not succeed.
#[derive(Clone, Debug, PartialEq, Eq)]
pub enum NsError {
    /// A PID namespace cannot be kept.
    PidNamespace,
    /// The system refused `step` with the error number `errno`.
    Failed { class: ErrorClass, step: Step, errno: i32 },
    /// The thread that carried out the steps died before it was through.
    WorkerPanicked,
    /// The caller reported an outcome that `step` cannot have.
    Unexpected { step: Step },
    /// The result was asked for while steps were still to be carried out.
    Unfinished,
}

/// An [`NsError`] as a mathematical value.
pub enum NsErrorView {
    PidNamespace,
    Failed { class: ErrorClass, step: StepView, errno: i32 },
    WorkerPanicked,
    Unexpected { step: StepView },
    Unfinished,
}

impl View for NsError {
    type V = NsErrorView;

    open spec fn view(&self) -> NsErrorView {
        match *self {
            NsError::PidNamespace => NsErrorView::PidNamespace,
            NsError::Failed { class, step, errno } => NsErrorView::Failed {
                class,
                step: step@,
                errno,
            },
            NsError::WorkerPanicked => NsErrorView::WorkerPanicked,
            NsError::Unexpected { step } => NsErrorView::Unexpected { step: step@ },
            NsError::Unfinished => NsErrorView::Unfinished,
        }
    }
}

impl NsErrorView {
    /// The kind of failure that the error stands for.
    pub open spec fn class(self) -> ErrorClass {
        match self {
            NsErrorView::PidNamespace => ErrorClass::Configuration,
            NsErrorView::Failed { class, .. } => class,
            NsErrorView::WorkerPanicked => ErrorClass::Synchronization,
            NsErrorView::Unexpected { .. } => ErrorClass::Synchronization,
            NsErrorView::Unfinished => ErrorClass::Synchronization,
        }
    }
}

impl StepView {
    /// The kind of failure that it is when the system refuses this step.
    pub open spec fn failure_class(self) -> ErrorClass {
        match self {
            StepView::CreateDirAll { .. } => ErrorClass::Resource,
            StepView::CreateFile { .. } => ErrorClass::Resource,
            StepView::OpenReadOnly { .. } => ErrorClass::Resource,
            StepView::Unshare { .. } => ErrorClass::Kernel,
            StepView::SetHostname { .. } => ErrorClass::Kernel,
            StepView::BindMount { .. } => ErrorClass::Kernel,
            StepView::SetResUid { .. } => ErrorClass::Kernel,
            StepView::SetResGid { .. } => ErrorClass::Kernel,
            StepView::WriteFile { .. } => ErrorClass::MappingWrite,
            StepView::Fork => ErrorClass::Synchronization,
            StepView::ClosePeerEnds => ErrorClass::Synchronization,
            StepView::Send { .. } => ErrorClass::Synchronization,
            StepView::Await { .. } => ErrorClass::Synchronization,
            StepView::CloseChannels => ErrorClass::Synchronization,
            StepView::WaitChild => ErrorClass::Synchronization,
            StepView::Exit { .. } => ErrorClass::Synchronization,
        }
    }

    /// Whether a refusal with `errno` leaves the step as good as done. That
    /// is so for one case only: the wait for a child that is gone already,
    /// at a point where all the work has succeeded.
    pub open spec fn tolerates(self, errno: i32) -> bool {
        self is WaitChild && errno == ECHILD
    }

    /// The error that stands for a refusal of this step.
    pub open spec fn refused(self, errno: i32) -> NsErrorView {
        NsErrorView::Failed { class: self.failure_class(), step: self, errno }
    }
}

impl Step {
    /// The kind of failure that it is when the system refuses this step.
    pub fn failure_class(&self) -> (class: ErrorClass)
        ensures
            class == self@.failure_class(),
    {
        match self {
            Step::CreateDirAll { .. } => ErrorClass::Resource,
            Step::CreateFile { .. } => ErrorClass::Resource,
            Step::OpenReadOnly { .. } => ErrorClass::Resource,
            Step::Unshare { .. } => ErrorClass::Kernel,
            Step::SetHostname { .. } => ErrorClass::Kernel,
            Step::BindMount { .. } => ErrorClass::Kernel,
            Step::SetResUid { .. } => ErrorClass::Kernel,
            Step::SetResGid { .. } => ErrorClass::Kernel,
            Step::WriteFile { .. } => ErrorClass::MappingWrite,
            Step::Fork => ErrorClass::Synchronization,
            Step::ClosePeerEnds => ErrorClass::Synchronization,
            Step::Send { .. } => ErrorClass::Synchronization,
            Step::Await { .. } => ErrorClass::Synchronization,
            Step::CloseChannels => ErrorClass::Synchronization,
            Step::WaitChild => ErrorClass::Synchronization,
            Step::Exit { .. } => ErrorClass::Synchronization,
        }
    }

    /// Whether a refusal with `errno` leaves the step as good as done.
    pub fn tolerates(&self, errno: i32) -> (tolerated: bool)
        ensures
            tolerated == self@.tolerates(errno),
        no_unwind
    {
        match self {
            Step::WaitChild => errno == ECHILD,
            _ => false,
        }
    }

    /// Whether this is the fork.
    pub fn is_fork(&self) -> (fork: bool)
        ensures
            fork == (self@ is Fork),
    {
        match self {
            Step::Fork => true,
            _ => false,
        }
    }
}

impl NsError {
    /// The kind of failure that the error stands for.
    pub fn class(&self) -> (class: ErrorClass)
        ensures
            class == self@.class(),
    {
        match self {
            NsError::PidNamespace => ErrorClass::Configuration,
            NsError::Failed { class, .. } => *class,
            NsError::WorkerPanicked => ErrorClass::Synchronization,
            NsError::Unexpected { .. } => ErrorClass::Synchronization,
            NsError::Unfinished => ErrorClass::Synchronization,
        }
    }
}

/// What went wrong at the current step of a run.
#[derive(Clone, Copy, PartialEq, Eq, Debug, Structural)]
enum Fault {
    Refused { errno: i32 },
    Unexpected,
}

/// A walk through a list of steps.
#[derive(Debug)]
pub struct Run {
    steps: Vec<Step>,
    done: usize,
    fault: Option<Fault>,
}

/// A [`Run`] as a mathematical value.
pub struct RunView {
    /// The steps, in the order in which they are to be carried out.
    pub plan: Seq<StepView>,
    /// How many of them have been carried out.
    pub position: nat,
    /// Why the run has stopped before its end, if it has.
    pub failure: Option<NsErrorView>,
}

impl RunView {
    /// A run that has not begun.
    pub open spec fn fresh(plan: Seq<StepView>) -> RunView {
        RunView { plan, position: 0, failure: None }
    }

    /// The step that the caller is to carry out now; none once the run has
    /// failed or is through.
    pub open spec fn current(self) -> Option<StepView> {
        if self.failure is None && self.position < self.plan.len() {
            Some(self.plan[self.position as int])
        } else {
            None
        }
    }

    /// Whether every step has been carried out.
    pub open spec fn complete(self) -> bool {
        self.failure is None && self.position >= self.plan.len()
    }

    /// The run after the caller has reported `outcome` for the current
    /// step. A run without a current step stays as it is.
    pub open spec fn next(self, outcome: Outcome) -> RunView {
        match self.current() {
            None => self,
            Some(step) => match outcome {
                Outcome::Done => RunView { position: self.position + 1, ..self },
                Outcome::Failed { errno } => if step.tolerates(errno) {
                    RunView { position: self.position + 1, ..self }
                } else {
                    RunView { failure: Some(step.refused(errno)), ..self }
                },
                Outcome::Parent { .. } => self.rejected(),
                Outcome::Child => self.rejected(),
            },
        }
    }

    /// The run after the caller has reported an outcome that the current
    /// step cannot have.
    pub open spec fn rejected(self) -> RunView {
        match self.current() {
            None => self,
            Some(step) => RunView { failure: Some(NsErrorView::Unexpected { step }), ..self },
        }
    }

    /// The run after the caller has reported `outcomes`, one after the
    /// other.
    pub open spec fn after(self, outcomes: Seq<Outcome>) -> RunView
        decreases outcomes.len(),
    {
        if outcomes.len() == 0 {
            self
        } else {
            self.after(outcomes.drop_last()).next(outcomes.last())
        }
    }

    /// How the run has ended, or that it has not.
    pub open spec fn result(self) -> Result<(), NsErrorView> {
        if self.complete() {
            Ok(())
        } else {
            match self.failure {
                Some(error) => Err(error),
                None => Err(NsErrorView::Unfinished),
            }
        }
    }
}

/// `n` reports of a step that has been carried out.
pub open spec fn successes(n: nat) -> Seq<Outcome> {
    Seq::new(n, |i: int| Outcome::Done)
}

/// As long as every step succeeds, the run moves on by one step for each
/// report, and it is complete exactly when the last step has been
/// reported.
pub proof fn lemma_steps_that_succeed(plan: Seq<StepView>, n: nat)
    requires
        n <= plan.len(),
    ensures
        RunView::fresh(plan).after(successes(n)) == (RunView { plan, position: n, failure: None }),
        RunView::fresh(plan).after(successes(n)).complete() <==> n == plan.len(),
    decreases n,
{
    if n > 0 {
        lemma_steps_that_succeed(plan, (n - 1) as nat);
        assert(successes(n).drop_last() =~= successes((n - 1) as nat));
    }
}

/// The first step that the system refuses ends the run, whatever is
/// reported afterwards: nothing is tried again, no later step is handed
/// out, and the result is the error of that step.
pub proof fn lemma_first_failure_is_final(
    plan: Seq<StepView>,
    outcomes: Seq<Outcome>,
    i: int,
    errno: i32,
)
    requires
        0 <= i < outcomes.len(),
        i < plan.len(),
        forall|j: int| 0 <= j < i ==> outcomes[j] == Outcome::Done,
        outcomes[i] == (Outcome::Failed { errno }),
        !plan[i].tolerates(errno),
    ensures
        RunView::fresh(plan).after(outcomes) == (RunView {
            plan,
            position: i as nat,
            failure: Some(plan[i].refused(errno)),
        }),
        RunView::fresh(plan).after(outcomes).current() is None,
        RunView::fresh(plan).after(outcomes).result() == Err::<(), NsErrorView>(
            plan[i].refused(errno),
        ),
    decreases outcomes.len(),
{
    let front = outcomes.drop_last();
    if outcomes.len() == i + 1 {
        lemma_steps_that_succeed(plan, i as nat);
        assert(front =~= successes(i as nat));
    } else {
        lemma_first_failure_is_final(plan, front, i, errno);
    }
}

impl View for Run {
    type V = RunView;

    closed spec fn view(&self) -> RunView {
        let plan = plan_view(self.steps@);
        RunView {
            plan,
            position: self.done as nat,
            failure: match self.fault {
                None => None,
                Some(Fault::Refused { errno }) => Some(plan[self.done as int].refused(errno)),
                Some(Fault::Unexpected) => Some(
                    NsErrorView::Unexpected { step: plan[self.done as int] },
                ),
            },
        }
    }
}

impl Run {
    #[verifier::type_invariant]
    spec fn well_formed(self) -> bool {
        &&& self.done <= self.steps.len()
        &&& self.fault is Some ==> self.done < self.steps.len()
    }

    /// A run of `steps` that has not begun.
    pub fn new(steps: Vec<Step>) -> (run: Run)
        ensures
            run@ == RunView::fresh(plan_view(steps@)),
    {
        Run { steps, done: 0, fault: None }
    }

    /// The step that is to be carried out now; none once the run has failed
    /// or is through.
    pub fn current(&self) -> (step: Option<&Step>)
        ensures
            match step {
                Some(step) => self@.current() == Some(step@),
                None => self@.current() is None,
            },
    {
        proof {
            use_type_invariant(self);
        }
        if self.fault.is_none() && self.done < self.steps.len() {
            Some(&self.steps[self.done])
        } else {
            None
        }
    }

    /// Takes note of what became of the current step.
    pub fn advance(&mut self, outcome: Outcome)
        ensures
            final(self)@ == old(self)@.next(outcome),
        no_unwind
    {
        proof {
            use_type_invariant(&*self);
        }
        let open = match self.fault {
            None => self.done < self.steps.len(),
            Some(_) => false,
        };
        if open {
            match outcome {
                Outcome::Done => {
                    self.done = self.done + 1;
                },
                Outcome::Failed { errno } => {
                    if self.steps[self.done].tolerates(errno) {
                        self.done = self.done + 1;
                    } else {
                        self.fault = Some(Fault::Refused { errno });
                    }
                },
                Outcome::Parent { .. } => {
                    self.fault = Some(Fault::Unexpected);
                },
                Outcome::Child => {
                    self.fault = Some(Fault::Unexpected);
                },
            }
        }
    }

    /// Takes note that the caller reported an outcome that the current step
    /// cannot have.
    pub fn reject(&mut self)
        ensures
            final(self)@ == old(self)@.rejected(),
        no_unwind
    {
        proof {
            use_type_invariant(&*self);
        }
        let open = match self.fault {
            None => self.done < self.steps.len(),
            Some(_) => false,
        };
        if open {
            self.fault = Some(Fault::Unexpected);
        }
    }

    /// Whether every step has been carried out.
    pub fn is_complete(&self) -> (complete: bool)
        ensures
            complete == self@.complete(),
    {
        proof {
            use_type_invariant(self);
        }
        self.fault.is_none() && self.done >= self.steps.len()
    }

    /// How the run has ended: well, with the error of the step that failed,
    /// or not yet.
    pub fn into_result(self) -> (result: Result<(), NsError>)
        ensures
            match result {
                Ok(()) => self@.result() is Ok,
                Err(error) => self@.result() == Err::<(), NsErrorView>(error@),
            },
    {
        proof {
            use_type_invariant(&self);
        }
        let Run { steps, done, fault } = self;
        let mut steps = steps;
        match fault {
            None => {
                if done >= steps.len() {
                    Ok(())
                } else {
                    Err(NsError::Unfinished)
                }
            },
            Some(Fault::Refused { errno }) => {
                let step = steps.remove(done);
                let class = step.failure_class();
                Err(NsError::Failed { class, step, errno })
            },
            Some(Fault::Unexpected) => {
                let step = steps.remove(done);
                Err(NsError::Unexpected { step })
            },
        }
    }
}

} // verus!
