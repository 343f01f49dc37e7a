//! A namespace that is to be kept, from its description to the path under
//! which it can be joined again.

use crate::idmap::IdMapping;
use crate::kind::{lemma_names_tell_kinds_apart, NamespaceType};
use crate::procfs::{get_current_thread_ns_path, join_path, joined, thread_ns_path};
use crate::step::{
    lemma_steps_that_succeed, successes, NsError, NsErrorView, Outcome, Run, RunView, Step,
    StepView, plan_view,
};
use vstd::prelude::*;
use vstd::string::*;

verus! {

/// The directory that holds the kept namespaces unless another one is
/// chosen: `/var/run/sandbox-ns`.
pub open spec fn default_root() -> Seq<char> {
    seq![
        '/',
        'v',
        'a',
        'r',
        '/',
        'r',
        'u',
        'n',
        '/',
        's',
        'a',
        'n',
        'd',
        'b',
        'o',
        'x',
        '-',
        'n',
        's',
    ]
}

/// The description of a namespace to keep and, once it has been set up, the
/// place where it is kept.
#[derive(Clone, Debug, PartialEq, Eq)]
pub struct Namespace {
    /// Where the namespace is kept. Empty until a setup has succeeded.
    pub path: String,
    /// The directory under which the namespace is kept.
    pub persistent_ns_dir: String,
    /// The kind of the namespace.
    pub ns_type: NamespaceType,
    /// The host name to give to a UTS namespace; of no effect on another
    /// kind.
    pub hostname: Option<String>,
    /// The uid map to give to a user namespace.
    pub uid_mappings: Option<Vec<IdMapping>>,
    /// The gid map to give to a user namespace.
    pub gid_mappings: Option<Vec<IdMapping>>,
}

/// A [`Namespace`] as a mathematical value.
pub struct NamespaceView {
    pub path: Seq<char>,
    pub root: Seq<char>,
    pub kind: NamespaceType,
    pub hostname: Option<Seq<char>>,
    pub uid_mappings: Option<Seq<IdMapping>>,
    pub gid_mappings: Option<Seq<IdMapping>>,
}

impl View for Namespace {
    type V = NamespaceView;

    open spec fn view(&self) -> NamespaceView {
        NamespaceView {
            path: self.path@,
            root: self.persistent_ns_dir@,
            kind: self.ns_type,
            hostname: match self.hostname {
                Some(name) => Some(name@),
                None => None,
            },
            uid_mappings: match self.uid_mappings {
                Some(maps) => Some(maps@),
                None => None,
            },
            gid_mappings: match self.gid_mappings {
                Some(maps) => Some(maps@),
                None => None,
            },
        }
    }
}

impl NamespaceView {
    /// The description that nothing has been said about yet: an IPC
    /// namespace under the default directory.
    pub open spec fn fresh() -> NamespaceView {
        NamespaceView {
            path: Seq::empty(),
            root: default_root(),
            kind: NamespaceType::Ipc,
            hostname: None,
            uid_mappings: None,
            gid_mappings: None,
        }
    }

    /// The file that the namespace is mounted on: the name of its kind
    /// under its directory.
    pub open spec fn target(self) -> Seq<char> {
        joined(self.root, self.kind.name())
    }

    /// The host name that a setup gives to the namespace, if any: the one
    /// that was asked for, and only for a UTS namespace.
    pub open spec fn hostname_to_set(self) -> Option<Seq<char>> {
        if self.kind == NamespaceType::Uts {
            self.hostname
        } else {
            None
        }
    }

    /// The namespace once it is kept: `path` names its file.
    pub open spec fn settled(self) -> NamespaceView {
        NamespaceView { path: self.target(), ..self }
    }
}

/// The steps that put the calling thread into a new namespace and keep
/// that namespace: unshare, the host name if one is to be set, and the
/// mount of `source` onto `target`.
pub open spec fn persist_plan(
    kind: NamespaceType,
    hostname: Option<Seq<char>>,
    source: Seq<char>,
    target: Seq<char>,
) -> Seq<StepView> {
    seq![StepView::Unshare { kind }] + unshare_extra(kind, hostname) + seq![
        StepView::BindMount { source, target },
    ]
}

/// What follows an unshare at once: for a UTS namespace with a host name,
/// the step that sets it; else nothing.
pub open spec fn unshare_extra(kind: NamespaceType, hostname: Option<Seq<char>>) -> Seq<StepView> {
    if kind == NamespaceType::Uts && hostname is Some {
        seq![StepView::SetHostname { name: hostname->0 }]
    } else {
        Seq::empty()
    }
}

/// The steps that make the file a namespace will be mounted on.
pub open spec fn target_plan(ns: NamespaceView) -> Seq<StepView> {
    seq![StepView::CreateDirAll { path: ns.root }, StepView::CreateFile { path: ns.target() }]
}

/// All the steps of the setup of one namespace, for a thread whose link to
/// its own namespace of that kind is `source`.
pub open spec fn setup_plan(ns: NamespaceView, source: Seq<char>) -> Seq<StepView> {
    target_plan(ns) + seq![StepView::OpenReadOnly { path: source }] + persist_plan(
        ns.kind,
        ns.hostname,
        source,
        ns.target(),
    )
}

/// The view of an optional string.
pub open spec fn name_view(name: Option<&String>) -> Option<Seq<char>> {
    match name {
        Some(name) => Some(name@),
        None => None,
    }
}

/// The steps that put the calling thread into a new namespace of kind
/// `ns_type` and keep that namespace at `destination`. `source` is the
/// thread's own link to its namespace of that kind.
pub fn persist_namespace(
    ns_type: NamespaceType,
    hostname: Option<&String>,
    source: &str,
    destination: &str,
) -> (steps: Vec<Step>)
    ensures
        plan_view(steps@) == persist_plan(ns_type, name_view(hostname), source@, destination@),
{
    let mut steps: Vec<Step> = Vec::new();
    steps.push(Step::Unshare { kind: ns_type });
    match ns_type {
        NamespaceType::Uts => {
            match hostname {
                Some(name) => {
                    steps.push(Step::SetHostname { name: name.clone() });
                },
                None => {},
            }
        },
        _ => {},
    }
    steps.push(
        Step::BindMount { source: String::from_str(source), target: String::from_str(destination) },
    );
    assert(plan_view(steps@) =~= persist_plan(
        ns_type,
        name_view(hostname),
        source@,
        destination@,
    ));
    steps
}

impl Namespace {
    /// The description that nothing has been said about yet.
    pub fn new() -> (ns: Namespace)
        ensures
            ns@ == NamespaceView::fresh(),
    {
        proof {
            reveal_strlit("/var/run/sandbox-ns");
            assert("/var/run/sandbox-ns"@ =~= default_root());
        }
        Namespace {
            path: String::new(),
            persistent_ns_dir: String::from_str("/var/run/sandbox-ns"),
            ns_type: NamespaceType::Ipc,
            hostname: None,
            uid_mappings: None,
            gid_mappings: None,
        }
    }

    /// Asks for an IPC namespace.
    pub fn get_ipc(self) -> (ns: Namespace)
        ensures
            ns@ == (NamespaceView { kind: NamespaceType::Ipc, ..self@ }),
    {
        let mut ns = self;
        ns.ns_type = NamespaceType::Ipc;
        ns
    }

    /// Asks for a UTS namespace. A `hostname` that is not empty is the name
    /// to give it; an empty one leaves whatever was asked for before.
    pub fn get_uts(self, hostname: &str) -> (ns: Namespace)
        ensures
            ns@ == (NamespaceView {
                kind: NamespaceType::Uts,
                hostname: if hostname@.len() > 0 {
                    Some(hostname@)
                } else {
                    self@.hostname
                },
                ..self@
            }),
    {
        let mut ns = self;
        ns.ns_type = NamespaceType::Uts;
        if !hostname.is_empty() {
            ns.hostname = Some(String::from_str(hostname));
        }
        ns
    }

    /// Asks for a PID namespace. No setup of it will succeed.
    pub fn get_pid(self) -> (ns: Namespace)
        ensures
            ns@ == (NamespaceView { kind: NamespaceType::Pid, ..self@ }),
    {
        let mut ns = self;
        ns.ns_type = NamespaceType::Pid;
        ns
    }

    /// Asks for a user namespace. A list that is not empty is the map to
    /// give it; an empty one leaves whatever was asked for before.
    pub fn get_user(self, uid_mappings: Vec<IdMapping>, gid_mappings: Vec<IdMapping>) -> (ns:
        Namespace)
        ensures
            ns@ == (NamespaceView {
                kind: NamespaceType::User,
                uid_mappings: if uid_mappings@.len() > 0 {
                    Some(uid_mappings@)
                } else {
                    self@.uid_mappings
                },
                gid_mappings: if gid_mappings@.len() > 0 {
                    Some(gid_mappings@)
                } else {
                    self@.gid_mappings
                },
                ..self@
            }),
    {
        let mut ns = self;
        ns.ns_type = NamespaceType::User;
        if uid_mappings.len() > 0 {
            ns.uid_mappings = Some(uid_mappings);
        }
        if gid_mappings.len() > 0 {
            ns.gid_mappings = Some(gid_mappings);
        }
        ns
    }

    /// Asks for a network namespace.
    pub fn get_net(self) -> (ns: Namespace)
        ensures
            ns@ == (NamespaceView { kind: NamespaceType::Net, ..self@ }),
    {
        let mut ns = self;
        ns.ns_type = NamespaceType::Net;
        ns
    }

    /// Chooses the directory under which the namespace is kept.
    pub fn set_root_dir(self, dir: &str) -> (ns: Namespace)
        ensures
            ns@ == (NamespaceView { root: dir@, ..self@ }),
    {
        let mut ns = self;
        ns.persistent_ns_dir = String::from_str(dir);
        ns
    }

    /// The file that the namespace is mounted on.
    pub fn target_path(&self) -> (path: String)
        ensures
            path@ == self@.target(),
    {
        join_path(self.persistent_ns_dir.as_str(), self.ns_type.get())
    }

    /// The steps that make the file the namespace will be mounted on.
    pub fn target_steps(&self) -> (steps: Vec<Step>)
        ensures
            plan_view(steps@) == target_plan(self@),
    {
        let mut steps: Vec<Step> = Vec::new();
        steps.push(Step::CreateDirAll { path: self.persistent_ns_dir.clone() });
        steps.push(Step::CreateFile { path: self.target_path() });
        assert(plan_view(steps@) =~= target_plan(self@));
        steps
    }

    pub(crate) fn into_settled(self) -> (ns: Namespace)
        ensures
            ns@ == self@.settled(),
    {
        let mut ns = self;
        ns.path = ns.target_path();
        ns
    }

    /// Begins the setup of the namespace. A PID namespace is turned down
    /// here, before anything has been asked of the system; every other
    /// kind is let through as it is.
    pub fn setup(self) -> (checked: Result<Setup, NsError>)
        ensures
            match checked {
                Ok(setup) => self@.kind.persistable() && setup@ == self@,
                Err(error) => !self@.kind.persistable() && error@ == NsErrorView::PidNamespace,
            },
    {
        if self.ns_type.is_pid() {
            Err(NsError::PidNamespace)
        } else {
            Ok(Setup { ns: self })
        }
    }
}

/// A namespace whose setup may go ahead.
#[derive(Debug)]
pub struct Setup {
    ns: Namespace,
}

impl View for Setup {
    type V = NamespaceView;

    closed spec fn view(&self) -> NamespaceView {
        self.ns@
    }
}

impl Setup {
    #[verifier::type_invariant]
    spec fn well_formed(self) -> bool {
        self.ns@.kind.persistable()
    }

    /// Lays out the steps for the calling thread, which must be the one
    /// that carries them out: the namespace that gets kept is the one this
    /// thread is in after its unshare. The source of the mount is the
    /// thread's own link, under the ids that the system reports for it.
    pub fn start(self) -> (run: SetupRun)
        ensures
            exists|pid: i32, tid: i32|
                run@ == SetupRunView::fresh(
                    self@,
                    #[trigger] thread_ns_path(pid as int, tid as int, self@.kind.name()),
                ),
    {
        let source = get_current_thread_ns_path(self.ns.ns_type.get());
        self.start_from(source)
    }

    /// Lays out the steps for a thread whose link to its own namespace is
    /// `source`.
    pub fn start_from(self, source: String) -> (run: SetupRun)
        ensures
            run@ == SetupRunView::fresh(self@, source@),
    {
        proof {
            use_type_invariant(&self);
        }
        let target = self.ns.target_path();
        let mut steps = self.ns.target_steps();
        steps.push(Step::OpenReadOnly { path: source.clone() });
        let mut rest = persist_namespace(
            self.ns.ns_type,
            self.ns.hostname.as_ref(),
            source.as_str(),
            target.as_str(),
        );
        steps.append(&mut rest);
        assert(plan_view(steps@) =~= setup_plan(self.ns@, source@));
        SetupRun { ns: self.ns, run: Run::new(steps) }
    }
}

/// The setup of one namespace, under way.
#[derive(Debug)]
pub struct SetupRun {
    ns: Namespace,
    run: Run,
}

/// A [`SetupRun`] as a mathematical value.
pub struct SetupRunView {
    /// The namespace as it was asked for.
    pub ns: NamespaceView,
    /// The steps and how far they have got.
    pub run: RunView,
}

impl SetupRunView {
    /// A setup of `ns` that has not begun, by a thread whose link to its
    /// own namespace is `source`.
    pub open spec fn fresh(ns: NamespaceView, source: Seq<char>) -> SetupRunView {
        SetupRunView { ns, run: RunView::fresh(setup_plan(ns, source)) }
    }

    /// The setup after the caller has reported `outcome` for the current
    /// step.
    pub open spec fn next(self, outcome: Outcome) -> SetupRunView {
        SetupRunView { run: self.run.next(outcome), ..self }
    }

    /// What the setup hands out in the end: the namespace with its path,
    /// if every step has been carried out; else the error.
    pub open spec fn result(self) -> Result<NamespaceView, NsErrorView> {
        match self.run.result() {
            Ok(()) => Ok(self.ns.settled()),
            Err(error) => Err(error),
        }
    }
}

impl View for SetupRun {
    type V = SetupRunView;

    closed spec fn view(&self) -> SetupRunView {
        SetupRunView { ns: self.ns@, run: self.run@ }
    }
}

impl SetupRun {
    #[verifier::type_invariant]
    spec fn well_formed(self) -> bool {
        self.ns@.kind.persistable()
    }

    /// The step that is to be carried out now; none once the setup has
    /// failed or is through.
    pub fn current(&self) -> (step: Option<&Step>)
        ensures
            match step {
                Some(step) => self@.run.current() == Some(step@),
                None => self@.run.current() is None,
            },
    {
        self.run.current()
    }

    /// Takes note of what became of the current step.
    pub fn advance(&mut self, outcome: Outcome)
        ensures
            final(self)@ == old(self)@.next(outcome),
    {
        proof {
            use_type_invariant(&*self);
        }
        self.run.advance(outcome);
    }

    /// Ends the setup. The namespace comes back with its path if every
    /// step has been carried out, and not otherwise. A PID namespace never
    /// comes back from here.
    pub fn finish(self) -> (result: Result<Namespace, NsError>)
        ensures
            match result {
                Ok(ns) => self@.result() == Ok::<NamespaceView, NsErrorView>(ns@)
                    && ns@.kind.persistable(),
                Err(error) => self@.result() == Err::<NamespaceView, NsErrorView>(error@),
            },
    {
        proof {
            use_type_invariant(&self);
        }
        let SetupRun { ns, run } = self;
        match run.into_result() {
            Ok(()) => Ok(ns.into_settled()),
            Err(error) => Err(error),
        }
    }
}

/// What the caller of a setup gets once the thread that carried out the
/// steps has been joined: what that thread came to, or, if it died before
/// it came to anything (`None`), an error of its own that no step can
/// give.
pub fn worker_result(joined: Option<Result<Namespace, NsError>>) -> (result: Result<
    Namespace,
    NsError,
>)
    ensures
        match joined {
            Some(ended) => result == ended,
            None => result matches Err(error) && error@ == NsErrorView::WorkerPanicked,
        },
{
    match joined {
        Some(ended) => ended,
        None => Err(NsError::WorkerPanicked),
    }
}

/// A setup of which every step succeeds ends with the namespace kept at
/// its target, and it ends there only after the last step.
pub proof fn lemma_setup_ends_at_the_target(ns: NamespaceView, source: Seq<char>, n: nat)
    requires
        n <= setup_plan(ns, source).len(),
    ensures
        ({
            let end = SetupRunView {
                ns,
                run: RunView::fresh(setup_plan(ns, source)).after(successes(n)),
            };
            if n == setup_plan(ns, source).len() {
                end.result() == Ok::<NamespaceView, NsErrorView>(ns.settled())
            } else {
                end.result() == Err::<NamespaceView, NsErrorView>(NsErrorView::Unfinished)
            }
        }),
{
    lemma_steps_that_succeed(setup_plan(ns, source), n);
}

/// The order of a setup: the directory, the file, the look at the
/// thread's link, the unshare, and the mount of that link onto the file
/// as the last step. A host name is set if and only if the namespace is a
/// UTS namespace that was given one; it is that name, and it is set
/// between the unshare and the mount.
pub proof fn lemma_setup_order(ns: NamespaceView, source: Seq<char>)
    ensures
        ({
            let plan = setup_plan(ns, source);
            &&& plan[0] == StepView::CreateDirAll { path: ns.root }
            &&& plan[1] == StepView::CreateFile { path: ns.target() }
            &&& plan[2] == StepView::OpenReadOnly { path: source }
            &&& plan[3] == StepView::Unshare { kind: ns.kind }
            &&& plan.last() == StepView::BindMount { source, target: ns.target() }
            &&& match ns.hostname_to_set() {
                Some(name) => plan.len() == 6 && plan[4] == StepView::SetHostname { name },
                None => plan.len() == 5,
            }
        }),
{
}

/// Namespaces of different kinds are never kept in the same file, whatever
/// their directories are.
pub proof fn lemma_kinds_have_their_own_targets(a: NamespaceView, b: NamespaceView)
    requires
        a.kind != b.kind,
    ensures
        a.target() != b.target(),
{
    lemma_names_tell_kinds_apart(a.kind, b.kind);
    assert(a.target().last() == a.kind.name().last());
    assert(b.target().last() == b.kind.name().last());
}

} // verus!
