//! The setup of a user namespace together with the namespaces that are to
//! live inside it.
//!
//! A process with several threads cannot make a user namespace, and no
//! process can write its own id maps from inside a new one. So the work is
//! divided between a parent and a child that it forks. The two take turns,
//! and four tokens passed over two pipes say whose turn it is:
//!
//! 1. the child leaves for a new user namespace ([`Message::UserNsReady`]),
//! 2. the parent writes the child's id maps ([`Message::MappingsWritten`]),
//! 3. the child takes the ids 0:0 and makes the dependent namespaces
//!    ([`Message::DependentNsReady`]),
//! 4. the parent mounts the child's namespaces onto their files
//!    ([`Message::Persisted`]), and the child exits.

use crate::idmap::{all_empty, mapping_text, write_mappings, IdMapping};
use crate::namespace::{target_plan, unshare_extra, Namespace, NamespaceView};
use crate::procfs::{get_proc_id_map_path, get_proc_ns_path, proc_id_map_path, proc_ns_path};
use crate::flat::{lemma_flat_map_all, lemma_flat_map_empty, lemma_flat_map_take};
use crate::kind::NamespaceType;
use crate::step::{
    successes, Message, NsError, NsErrorView, Outcome, Run, RunView, Step, StepView, plan_view,
};
use vstd::prelude::*;
use vstd::string::*;

verus! {

/// Which side of the fork a session is on.
#[derive(Clone, Copy, PartialEq, Eq, Debug, Structural)]
pub enum Role {
    /// The fork has not happened yet.
    Undivided,
    /// The process that forked; `child` is the process it got.
    Parent { child: i32 },
    /// The process that the fork made.
    Child,
}

/// A list of namespaces as a mathematical value.
pub open spec fn namespaces_view(nses: Seq<Namespace>) -> Seq<NamespaceView> {
    nses.map_values(|ns: Namespace| ns@)
}

/// Whether no namespace of the list is a PID namespace.
pub open spec fn all_persistable(nses: Seq<NamespaceView>) -> bool {
    forall|i: int| 0 <= i < nses.len() ==> (#[trigger] nses[i]).kind.persistable()
}

/// The steps that make the files of the namespaces, one namespace after
/// the other.
pub open spec fn targets_plan(nses: Seq<NamespaceView>) -> Seq<StepView> {
    nses.flat_map(|ns: NamespaceView| target_plan(ns))
}

/// What is done before the fork: the files of the user namespace and of
/// the dependent ones are made; the fork itself is the last step.
pub open spec fn prepare_plan(userns: NamespaceView, nses: Seq<NamespaceView>) -> Seq<StepView> {
    target_plan(userns) + targets_plan(nses) + seq![StepView::Fork]
}

/// The step that writes one id map of the child, if there is anything to
/// write: a map was asked for and not all of its mappings are empty.
pub open spec fn write_plan(child: int, is_uid: bool, maps: Option<Seq<IdMapping>>) -> Seq<
    StepView,
> {
    match maps {
        Some(maps) => if all_empty(maps) {
            Seq::empty()
        } else {
            seq![
                StepView::WriteFile {
                    path: proc_id_map_path(child, is_uid),
                    data: mapping_text(maps),
                },
            ]
        },
        None => Seq::empty(),
    }
}

/// The steps that keep one namespace of the child: its link is opened, to
/// see that it is there, and mounted onto the namespace's file.
pub open spec fn mount_steps(child: int, ns: NamespaceView) -> Seq<StepView> {
    seq![
        StepView::OpenReadOnly { path: proc_ns_path(child, ns.kind.name()) },
        StepView::BindMount { source: proc_ns_path(child, ns.kind.name()), target: ns.target() },
    ]
}

/// The steps that keep the namespaces of the child, one after the other.
pub open spec fn mounts_plan(child: int, nses: Seq<NamespaceView>) -> Seq<StepView> {
    nses.flat_map(|ns: NamespaceView| mount_steps(child, ns))
}

/// The steps by which the child enters one new namespace: the unshare
/// and, at once, the host name of a UTS namespace that is to have one.
pub open spec fn enter_steps(ns: NamespaceView) -> Seq<StepView> {
    seq![StepView::Unshare { kind: ns.kind }] + unshare_extra(ns.kind, ns.hostname)
}

/// The steps by which the child enters the namespaces, one after the
/// other.
pub open spec fn enters_plan(nses: Seq<NamespaceView>) -> Seq<StepView> {
    nses.flat_map(|ns: NamespaceView| enter_steps(ns))
}

/// All that the parent does after the fork. The pipe ends of the child
/// are closed first: they could not be closed any earlier, since it is
/// through the fork that the child gets them.
pub open spec fn parent_plan(userns: NamespaceView, nses: Seq<NamespaceView>, child: int) -> Seq<
    StepView,
> {
    seq![StepView::ClosePeerEnds, StepView::Await { message: Message::UserNsReady }] + write_plan(
        child,
        true,
        userns.uid_mappings,
    ) + write_plan(child, false, userns.gid_mappings) + seq![
        StepView::Send { message: Message::MappingsWritten },
        StepView::Await { message: Message::DependentNsReady },
    ] + mount_steps(child, userns) + mounts_plan(child, nses) + seq![
        StepView::Send { message: Message::Persisted },
        StepView::CloseChannels,
        StepView::WaitChild,
    ]
}

/// All that the child does.
pub open spec fn child_plan(userns: NamespaceView, nses: Seq<NamespaceView>) -> Seq<StepView> {
    seq![
        StepView::ClosePeerEnds,
        StepView::Unshare { kind: userns.kind },
        StepView::Send { message: Message::UserNsReady },
        StepView::Await { message: Message::MappingsWritten },
        StepView::SetResUid { uid: 0 },
        StepView::SetResGid { gid: 0 },
    ] + enters_plan(nses) + seq![
        StepView::Send { message: Message::DependentNsReady },
        StepView::Await { message: Message::Persisted },
        StepView::Exit { code: 0 },
    ]
}

/// The steps that give the calling process the ids `uid` and `gid`.
pub fn setid(uid: u32, gid: u32) -> (steps: Vec<Step>)
    ensures
        plan_view(steps@) == seq![StepView::SetResUid { uid }, StepView::SetResGid { gid }],
{
    let mut steps: Vec<Step> = Vec::new();
    steps.push(Step::SetResUid { uid });
    steps.push(Step::SetResGid { gid });
    assert(plan_view(steps@) =~= seq![StepView::SetResUid { uid }, StepView::SetResGid { gid }]);
    steps
}

proof fn lemma_plan_view_add(a: Seq<Step>, b: Seq<Step>)
    ensures
        plan_view(a + b) == plan_view(a) + plan_view(b),
{
    assert(plan_view(a + b) =~= plan_view(a) + plan_view(b));
}

/// Begins the setup of the user namespace `userns` and of the namespaces
/// `nses` that are to live inside it. A PID namespace, be it among `nses`
/// or in the place of the user namespace, is turned down here, before
/// anything has been asked of the system, the fork least of all.
pub fn setup_in_userns(userns: Namespace, nses: Vec<Namespace>) -> (checked: Result<
    UsernsSetup,
    NsError,
>)
    ensures
        match checked {
            Ok(setup) => userns@.kind.persistable() && all_persistable(namespaces_view(nses@))
                && setup@ == UsernsView::fresh(userns@, namespaces_view(nses@)),
            Err(error) => !(userns@.kind.persistable() && all_persistable(
                namespaces_view(nses@),
            )) && error@ == NsErrorView::PidNamespace,
        },
{
    if userns.ns_type.is_pid() {
        return Err(NsError::PidNamespace);
    }
    let ghost views = namespaces_view(nses@);
    let mut steps = userns.target_steps();
    let mut i: usize = 0;
    proof {
        lemma_flat_map_empty(|ns: NamespaceView| target_plan(ns));
        assert(views.take(0) =~= Seq::empty());
        assert(plan_view(steps@) =~= target_plan(userns@) + targets_plan(views.take(0)));
    }
    while i < nses.len()
        invariant
            i <= nses.len(),
            views == namespaces_view(nses@),
            all_persistable(views.take(i as int)),
            plan_view(steps@) == target_plan(userns@) + targets_plan(views.take(i as int)),
        decreases nses.len() - i,
    {
        if nses[i].ns_type.is_pid() {
            assert(!views[i as int].kind.persistable());
            return Err(NsError::PidNamespace);
        }
        let mut more = nses[i].target_steps();
        proof {
            lemma_plan_view_add(steps@, more@);
            lemma_flat_map_take(views, |ns: NamespaceView| target_plan(ns), i as int);
            assert(target_plan(userns@) + targets_plan(views.take(i as int)) + target_plan(
                views[i as int],
            ) =~= target_plan(userns@) + (targets_plan(views.take(i as int)) + target_plan(
                views[i as int],
            )));
            assert forall|j: int| 0 <= j < i + 1 implies (#[trigger] views.take(
                i + 1,
            )[j]).kind.persistable() by {
                if j < i {
                    assert(views.take(i as int)[j] == views[j]);
                }
            }
        }
        steps.append(&mut more);
        i = i + 1;
    }
    steps.push(Step::Fork);
    proof {
        assert(views.take(i as int) =~= views);
        assert(plan_view(steps@) =~= prepare_plan(userns@, views));
    }
    Ok(UsernsSetup { userns, nses, role: Role::Undivided, run: Run::new(steps) })
}

/// The setup of a user namespace and its dependents, under way in one of
/// the two processes.
#[derive(Debug)]
pub struct UsernsSetup {
    userns: Namespace,
    nses: Vec<Namespace>,
    role: Role,
    run: Run,
}

/// A [`UsernsSetup`] as a mathematical value.
pub struct UsernsView {
    /// The user namespace as it was asked for.
    pub userns: NamespaceView,
    /// The dependent namespaces as they were asked for.
    pub nses: Seq<NamespaceView>,
    /// The side of the fork that this process is on.
    pub role: Role,
    /// The steps of that side and how far they have got.
    pub run: RunView,
}

impl UsernsView {
    /// A setup that has not begun.
    pub open spec fn fresh(userns: NamespaceView, nses: Seq<NamespaceView>) -> UsernsView {
        UsernsView {
            userns,
            nses,
            role: Role::Undivided,
            run: RunView::fresh(prepare_plan(userns, nses)),
        }
    }

    /// The setup after the caller has reported `outcome` for the current
    /// step. At the fork the two processes part: each goes on with the
    /// steps of its own side, from the first. A fork that is reported as
    /// merely done has not said which side this is, and is not accepted.
    pub open spec fn next(self, outcome: Outcome) -> UsernsView {
        if self.run.current() == Some(StepView::Fork) {
            match outcome {
                Outcome::Parent { child } => UsernsView {
                    role: Role::Parent { child },
                    run: RunView::fresh(parent_plan(self.userns, self.nses, child as int)),
                    ..self
                },
                Outcome::Child => UsernsView {
                    role: Role::Child,
                    run: RunView::fresh(child_plan(self.userns, self.nses)),
                    ..self
                },
                Outcome::Failed { .. } => UsernsView { run: self.run.next(outcome), ..self },
                Outcome::Done => UsernsView { run: self.run.rejected(), ..self },
            }
        } else {
            UsernsView { run: self.run.next(outcome), ..self }
        }
    }

    /// The setup after the caller has reported `outcomes`, one after the
    /// other.
    pub open spec fn after(self, outcomes: Seq<Outcome>) -> UsernsView
        decreases outcomes.len(),
    {
        if outcomes.len() == 0 {
            self
        } else {
            self.after(outcomes.drop_last()).next(outcomes.last())
        }
    }

    /// What the setup hands out in the end. The parent, once it has carried
    /// out every step, gets the namespaces back with their paths. Else
    /// there is the error of the step that failed, or the setup is not
    /// finished: the child never is, it exits.
    pub open spec fn result(self) -> Result<(NamespaceView, Seq<NamespaceView>), NsErrorView> {
        if self.role is Parent && self.run.complete() {
            Ok((self.userns.settled(), self.nses.map_values(|ns: NamespaceView| ns.settled())))
        } else {
            match self.run.failure {
                Some(error) => Err(error),
                None => Err(NsErrorView::Unfinished),
            }
        }
    }
}

spec fn is_target_step(step: StepView) -> bool {
    step is CreateDirAll || step is CreateFile
}

spec fn is_no_fork(step: StepView) -> bool {
    !(step is Fork)
}

/// Nothing is forked before every file is made: the fork is the last step
/// of the time before it, and all that precedes it makes directories and
/// files.
pub proof fn lemma_the_fork_comes_last(userns: NamespaceView, nses: Seq<NamespaceView>)
    ensures
        prepare_plan(userns, nses).len() >= 3,
        prepare_plan(userns, nses).last() == StepView::Fork,
        forall|i: int|
            0 <= i < prepare_plan(userns, nses).len() - 1 ==> {
                let step = #[trigger] prepare_plan(userns, nses)[i];
                step is CreateDirAll || step is CreateFile
            },
{
    lemma_flat_map_all(
        nses,
        |ns: NamespaceView| target_plan(ns),
        |step: StepView| is_target_step(step),
    );
    let plan = prepare_plan(userns, nses);
    let rest = targets_plan(nses);
    assert forall|i: int| 0 <= i < plan.len() - 1 implies is_target_step(#[trigger] plan[i]) by {
        if i >= 2 {
            assert(plan[i] == rest[i - 2]);
            assert(is_target_step(rest[i - 2]));
        }
    }
}

/// Each process forks at most once: after the fork, neither side has a
/// fork among its steps.
pub proof fn lemma_no_fork_after_the_fork(
    userns: NamespaceView,
    nses: Seq<NamespaceView>,
    child: int,
)
    ensures
        forall|i: int|
            0 <= i < parent_plan(userns, nses, child).len() ==> !(#[trigger] parent_plan(
                userns,
                nses,
                child,
            )[i] is Fork),
        forall|i: int|
            0 <= i < child_plan(userns, nses).len() ==> !(#[trigger] child_plan(
                userns,
                nses,
            )[i] is Fork),
{
    lemma_flat_map_all(
        nses,
        |ns: NamespaceView| mount_steps(child, ns),
        |step: StepView| is_no_fork(step),
    );
    lemma_flat_map_all(nses, |ns: NamespaceView| enter_steps(ns), |step: StepView| is_no_fork(step));
    let parent = parent_plan(userns, nses, child);
    let uid = write_plan(child, true, userns.uid_mappings);
    let gid = write_plan(child, false, userns.gid_mappings);
    let mounts = mounts_plan(child, nses);
    let w = uid.len() + gid.len();
    assert forall|i: int| 0 <= i < parent.len() implies is_no_fork(#[trigger] parent[i]) by {
        if 2 <= i < 2 + uid.len() {
            assert(parent[i] == uid[i - 2]);
        } else if 2 + uid.len() <= i < 2 + w {
            assert(parent[i] == gid[i - 2 - uid.len()]);
        } else if 6 + w <= i < 6 + w + mounts.len() {
            assert(parent[i] == mounts[i - 6 - w]);
            assert(is_no_fork(mounts[i - 6 - w]));
        }
    }
    let side = child_plan(userns, nses);
    let enters = enters_plan(nses);
    assert forall|i: int| 0 <= i < side.len() implies is_no_fork(#[trigger] side[i]) by {
        if 6 <= i < 6 + enters.len() {
            assert(side[i] == enters[i - 6]);
            assert(is_no_fork(enters[i - 6]));
        }
    }
}

/// Reports are taken one after the other: a setup after two lists of them
/// is the setup after the first list, after the second.
pub proof fn lemma_userns_after_concat(
    setup: UsernsView,
    first: Seq<Outcome>,
    second: Seq<Outcome>,
)
    ensures
        setup.after(first + second) == setup.after(first).after(second),
    decreases second.len(),
{
    if second.len() == 0 {
        assert(first + second =~= first);
    } else {
        lemma_userns_after_concat(setup, first, second.drop_last());
        assert((first + second).drop_last() =~= first + second.drop_last());
    }
}

proof fn lemma_successes_without_fork(setup: UsernsView, n: nat)
    requires
        setup.run.failure is None,
        setup.run.position + n <= setup.run.plan.len(),
        forall|i: int|
            setup.run.position <= i < setup.run.position + n ==> !(
            #[trigger] setup.run.plan[i] is Fork),
    ensures
        setup.after(successes(n)) == (UsernsView {
            run: RunView { position: setup.run.position + n, ..setup.run },
            ..setup
        }),
    decreases n,
{
    if n > 0 {
        lemma_successes_without_fork(setup, (n - 1) as nat);
        assert(successes(n).drop_last() =~= successes((n - 1) as nat));
        let before = setup.after(successes((n - 1) as nat));
        assert(before.run.current() == Some(setup.run.plan[setup.run.position + n - 1]));
    }
}

/// The whole of a setup that goes well, seen from the parent: it makes
/// the files, forks, learns that it is the parent, and carries out its
/// side; then, and not before, it gets every namespace back with its
/// path.
pub proof fn lemma_the_parent_ends_with_every_path(
    userns: NamespaceView,
    nses: Seq<NamespaceView>,
    child: i32,
)
    ensures
        ({
            let files = (prepare_plan(userns, nses).len() - 1) as nat;
            let side = parent_plan(userns, nses, child as int).len();
            let reports = successes(files) + seq![Outcome::Parent { child }] + successes(side);
            let end = UsernsView::fresh(userns, nses).after(reports);
            &&& end.role == Role::Parent { child }
            &&& end.result() == Ok::<(NamespaceView, Seq<NamespaceView>), NsErrorView>(
                (userns.settled(), nses.map_values(|ns: NamespaceView| ns.settled())),
            )
        }),
{
    let start = UsernsView::fresh(userns, nses);
    let files = (prepare_plan(userns, nses).len() - 1) as nat;
    let parent = parent_plan(userns, nses, child as int);
    lemma_the_fork_comes_last(userns, nses);
    lemma_no_fork_after_the_fork(userns, nses, child as int);
    assert forall|i: int| 0 <= i < files implies !(#[trigger] start.run.plan[i] is Fork) by {
        let step = prepare_plan(userns, nses)[i];
        assert(step is CreateDirAll || step is CreateFile);
    }
    lemma_successes_without_fork(start, files);
    let at_fork = start.after(successes(files));
    assert(at_fork.run.current() == Some(StepView::Fork));
    let forked = at_fork.next(Outcome::Parent { child });
    let first = successes(files) + seq![Outcome::Parent { child }];
    assert(first.drop_last() =~= successes(files));
    assert(start.after(first) == forked);
    lemma_successes_without_fork(forked, parent.len());
    lemma_userns_after_concat(start, first, successes(parent.len()));
}

impl View for UsernsSetup {
    type V = UsernsView;

    closed spec fn view(&self) -> UsernsView {
        UsernsView {
            userns: self.userns@,
            nses: namespaces_view(self.nses@),
            role: self.role,
            run: self.run@,
        }
    }
}

impl UsernsSetup {
    #[verifier::type_invariant]
    spec fn well_formed(self) -> bool {
        &&& self.userns@.kind.persistable()
        &&& all_persistable(namespaces_view(self.nses@))
    }

    /// The side of the fork that this process is on.
    pub fn role(&self) -> (role: Role)
        ensures
            role == self@.role,
    {
        self.role
    }

    /// The step that is to be carried out now; none once the setup has
    /// failed or is through.
    pub fn current(&self) -> (step: Option<&Step>)
        ensures
            match step {
                Some(step) => self@.run.current() == Some(step@),
                None => self@.run.current() is None,
            },
    {
        self.run.current()
    }

    fn write_step(&self, child: i32, is_uid: bool) -> (steps: Vec<Step>)
        ensures
            plan_view(steps@) == write_plan(
                child as int,
                is_uid,
                if is_uid {
                    self@.userns.uid_mappings
                } else {
                    self@.userns.gid_mappings
                },
            ),
    {
        let mut steps: Vec<Step> = Vec::new();
        let maps = if is_uid {
            &self.userns.uid_mappings
        } else {
            &self.userns.gid_mappings
        };
        match maps {
            Some(maps) => {
                let path = get_proc_id_map_path(child, is_uid);
                match write_mappings(path.as_str(), maps.as_slice()) {
                    Some(step) => {
                        steps.push(step);
                    },
                    None => {},
                }
            },
            None => {},
        }
        assert(plan_view(steps@) =~= write_plan(
            child as int,
            is_uid,
            if is_uid {
                self@.userns.uid_mappings
            } else {
                self@.userns.gid_mappings
            },
        ));
        steps
    }

    fn mount_of(ns: &Namespace, child: i32) -> (steps: Vec<Step>)
        ensures
            plan_view(steps@) == mount_steps(child as int, ns@),
    {
        let mut steps: Vec<Step> = Vec::new();
        let source = get_proc_ns_path(child, ns.ns_type.get());
        steps.push(Step::OpenReadOnly { path: source.clone() });
        steps.push(Step::BindMount { source, target: ns.target_path() });
        assert(plan_view(steps@) =~= mount_steps(child as int, ns@));
        steps
    }

    fn enter_of(ns: &Namespace) -> (steps: Vec<Step>)
        ensures
            plan_view(steps@) == enter_steps(ns@),
    {
        let mut steps: Vec<Step> = Vec::new();
        steps.push(Step::Unshare { kind: ns.ns_type });
        match ns.ns_type {
            NamespaceType::Uts => {
                match &ns.hostname {
                    Some(name) => {
                        steps.push(Step::SetHostname { name: name.clone() });
                    },
                    None => {},
                }
            },
            _ => {},
        }
        assert(plan_view(steps@) =~= enter_steps(ns@));
        steps
    }

    fn parent_steps(&self, child: i32) -> (steps: Vec<Step>)
        ensures
            plan_view(steps@) == parent_plan(self@.userns, self@.nses, child as int),
    {
        let ghost views = namespaces_view(self.nses@);
        let ghost head = seq![
            StepView::ClosePeerEnds,
            StepView::Await { message: Message::UserNsReady },
        ] + write_plan(child as int, true, self@.userns.uid_mappings) + write_plan(
            child as int,
            false,
            self@.userns.gid_mappings,
        ) + seq![
            StepView::Send { message: Message::MappingsWritten },
            StepView::Await { message: Message::DependentNsReady },
        ] + mount_steps(child as int, self@.userns);
        let mut steps: Vec<Step> = Vec::new();
        steps.push(Step::ClosePeerEnds);
        steps.push(Step::Await { message: Message::UserNsReady });
        let mut uid = self.write_step(child, true);
        let mut gid = self.write_step(child, false);
        proof {
            lemma_plan_view_add(steps@, uid@);
            lemma_plan_view_add(steps@ + uid@, gid@);
        }
        steps.append(&mut uid);
        steps.append(&mut gid);
        steps.push(Step::Send { message: Message::MappingsWritten });
        steps.push(Step::Await { message: Message::DependentNsReady });
        let mut first = Self::mount_of(&self.userns, child);
        proof {
            lemma_plan_view_add(steps@, first@);
        }
        steps.append(&mut first);
        let mut i: usize = 0;
        proof {
            lemma_flat_map_empty(|ns: NamespaceView| mount_steps(child as int, ns));
            assert(views.take(0) =~= Seq::empty());
            assert(plan_view(steps@) =~= head + mounts_plan(child as int, views.take(0)));
        }
        while i < self.nses.len()
            invariant
                i <= self.nses.len(),
                views == namespaces_view(self.nses@),
                plan_view(steps@) == head + mounts_plan(child as int, views.take(i as int)),
            decreases self.nses.len() - i,
        {
            let mut more = Self::mount_of(&self.nses[i], child);
            proof {
                lemma_plan_view_add(steps@, more@);
                lemma_flat_map_take(
                    views,
                    |ns: NamespaceView| mount_steps(child as int, ns),
                    i as int,
                );
                assert(head + mounts_plan(child as int, views.take(i as int)) + mount_steps(
                    child as int,
                    views[i as int],
                ) =~= head + (mounts_plan(child as int, views.take(i as int)) + mount_steps(
                    child as int,
                    views[i as int],
                )));
            }
            steps.append(&mut more);
            i = i + 1;
        }
        steps.push(Step::Send { message: Message::Persisted });
        steps.push(Step::CloseChannels);
        steps.push(Step::WaitChild);
        proof {
            assert(views.take(i as int) =~= views);
            assert(plan_view(steps@) =~= parent_plan(self@.userns, self@.nses, child as int));
        }
        steps
    }

    fn child_steps(&self) -> (steps: Vec<Step>)
        ensures
            plan_view(steps@) == child_plan(self@.userns, self@.nses),
    {
        let ghost views = namespaces_view(self.nses@);
        let ghost head = seq![
            StepView::ClosePeerEnds,
            StepView::Unshare { kind: self@.userns.kind },
            StepView::Send { message: Message::UserNsReady },
            StepView::Await { message: Message::MappingsWritten },
            StepView::SetResUid { uid: 0 },
            StepView::SetResGid { gid: 0 },
        ];
        let mut steps: Vec<Step> = Vec::new();
        steps.push(Step::ClosePeerEnds);
        steps.push(Step::Unshare { kind: self.userns.ns_type });
        steps.push(Step::Send { message: Message::UserNsReady });
        steps.push(Step::Await { message: Message::MappingsWritten });
        let mut ids = setid(0, 0);
        proof {
            lemma_plan_view_add(steps@, ids@);
        }
        steps.append(&mut ids);
        let mut i: usize = 0;
        proof {
            lemma_flat_map_empty(|ns: NamespaceView| enter_steps(ns));
            assert(views.take(0) =~= Seq::empty());
            assert(plan_view(steps@) =~= head + enters_plan(views.take(0)));
        }
        while i < self.nses.len()
            invariant
                i <= self.nses.len(),
                views == namespaces_view(self.nses@),
                plan_view(steps@) == head + enters_plan(views.take(i as int)),
            decreases self.nses.len() - i,
        {
            let mut more = Self::enter_of(&self.nses[i]);
            proof {
                lemma_plan_view_add(steps@, more@);
                lemma_flat_map_take(views, |ns: NamespaceView| enter_steps(ns), i as int);
                assert(head + enters_plan(views.take(i as int)) + enter_steps(views[i as int])
                    =~= head + (enters_plan(views.take(i as int)) + enter_steps(views[i as int])));
            }
            steps.append(&mut more);
            i = i + 1;
        }
        steps.push(Step::Send { message: Message::DependentNsReady });
        steps.push(Step::Await { message: Message::Persisted });
        steps.push(Step::Exit { code: 0 });
        proof {
            assert(views.take(i as int) =~= views);
            assert(plan_view(steps@) =~= child_plan(self@.userns, self@.nses));
        }
        steps
    }

    /// Takes note of what became of the current step.
    pub fn advance(&mut self, outcome: Outcome)
        ensures
            final(self)@ == old(self)@.next(outcome),
    {
        proof {
            use_type_invariant(&*self);
        }
        let at_fork = match self.run.current() {
            Some(step) => step.is_fork(),
            None => false,
        };
        if at_fork {
            match outcome {
                Outcome::Parent { child } => {
                    let steps = self.parent_steps(child);
                    self.run = Run::new(steps);
                    self.role = Role::Parent { child };
                },
                Outcome::Child => {
                    let steps = self.child_steps();
                    self.run = Run::new(steps);
                    self.role = Role::Child;
                },
                Outcome::Failed { .. } => {
                    self.run.advance(outcome);
                },
                Outcome::Done => {
                    self.run.reject();
                },
            }
        } else {
            self.run.advance(outcome);
        }
    }

    /// Ends the setup. The parent gets the namespaces back with their
    /// paths if it has carried out every step, and nobody does otherwise.
    /// No PID namespace is among those that come back.
    pub fn finish(self) -> (result: Result<(Namespace, Vec<Namespace>), NsError>)
        ensures
            match result {
                Ok((userns, nses)) => self@.result() == Ok::<
                    (NamespaceView, Seq<NamespaceView>),
                    NsErrorView,
                >((userns@, namespaces_view(nses@))) && userns@.kind.persistable()
                    && all_persistable(namespaces_view(nses@)),
                Err(error) => self@.result() == Err::<
                    (NamespaceView, Seq<NamespaceView>),
                    NsErrorView,
                >(error@),
            },
    {
        proof {
            use_type_invariant(&self);
        }
        let UsernsSetup { userns, nses, role, run } = self;
        let is_parent = match role {
            Role::Parent { .. } => true,
            _ => false,
        };
        match run.into_result() {
            Ok(()) => {
                if is_parent {
                    let ghost views = namespaces_view(nses@);
                    let ghost settled = views.map_values(|ns: NamespaceView| ns.settled());
                    let mut rest = nses;
                    let mut kept: Vec<Namespace> = Vec::new();
                    assert(namespaces_view(kept@) + namespaces_view(rest@).map_values(
                        |ns: NamespaceView| ns.settled(),
                    ) =~= settled);
                    while rest.len() > 0
                        invariant
                            namespaces_view(kept@) + namespaces_view(rest@).map_values(
                                |ns: NamespaceView| ns.settled(),
                            ) == settled,
                        decreases rest.len(),
                    {
                        let ghost before = rest@;
                        let ghost kept_before = kept@;
                        let ns = rest.remove(0);
                        kept.push(ns.into_settled());
                        assert(namespaces_view(kept@) + namespaces_view(rest@).map_values(
                            |ns: NamespaceView| ns.settled(),
                        ) =~= namespaces_view(kept_before) + namespaces_view(before).map_values(
                            |ns: NamespaceView| ns.settled(),
                        ));
                    }
                    assert(namespaces_view(kept@) =~= settled);
                    Ok((userns.into_settled(), kept))
                } else {
                    Err(NsError::Unfinished)
                }
            },
            Err(error) => Err(error),
        }
    }
}

} // verus!
