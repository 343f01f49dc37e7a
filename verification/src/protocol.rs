//! The handshake between the parent and the child, as a system of two
//! processes and two pipes, and the order of events that it guarantees
//! however the two are scheduled.

use crate::flat::lemma_flat_map_all;
use crate::namespace::NamespaceView;
use crate::step::{Message, StepView};
use crate::userns::{
    child_plan, enter_steps, enters_plan, mount_steps, mounts_plan, parent_plan, write_plan,
};
use vstd::prelude::*;

verus! {

/// The two processes and the pipes between them at one moment.
pub struct Handshake {
    /// How many steps of its plan the parent has carried out.
    pub parent_done: nat,
    /// How many steps of its plan the child has carried out.
    pub child_done: nat,
    /// The tokens that the child has sent and the parent has not read
    /// yet, oldest first.
    pub to_parent: Seq<Message>,
    /// The tokens that the parent has sent and the child has not read
    /// yet, oldest first.
    pub to_child: Seq<Message>,
}

impl Handshake {
    /// The moment after the fork: nothing done, nothing sent.
    pub open spec fn initial() -> Handshake {
        Handshake {
            parent_done: 0,
            child_done: 0,
            to_parent: Seq::empty(),
            to_child: Seq::empty(),
        }
    }

    /// The moment after the parent has carried out its current step.
    pub open spec fn after_parent_step(self, parent: Seq<StepView>) -> Handshake {
        match parent[self.parent_done as int] {
            StepView::Send { message } => Handshake {
                parent_done: self.parent_done + 1,
                to_child: self.to_child.push(message),
                ..self
            },
            StepView::Await { .. } => Handshake {
                parent_done: self.parent_done + 1,
                to_parent: self.to_parent.drop_first(),
                ..self
            },
            _ => Handshake { parent_done: self.parent_done + 1, ..self },
        }
    }

    /// The moment after the child has carried out its current step.
    pub open spec fn after_child_step(self, child: Seq<StepView>) -> Handshake {
        match child[self.child_done as int] {
            StepView::Send { message } => Handshake {
                child_done: self.child_done + 1,
                to_parent: self.to_parent.push(message),
                ..self
            },
            StepView::Await { .. } => Handshake {
                child_done: self.child_done + 1,
                to_child: self.to_child.drop_first(),
                ..self
            },
            _ => Handshake { child_done: self.child_done + 1, ..self },
        }
    }

    /// Whether the parent can carry out its current step now: it has one,
    /// and if that is a wait, there is a token to read.
    pub open spec fn parent_can_step(self, parent: Seq<StepView>) -> bool {
        &&& self.parent_done < parent.len()
        &&& parent[self.parent_done as int] is Await ==> self.to_parent.len() > 0
    }

    /// Whether the child can carry out its current step now.
    pub open spec fn child_can_step(self, child: Seq<StepView>) -> bool {
        &&& self.child_done < child.len()
        &&& child[self.child_done as int] is Await ==> self.to_child.len() > 0
    }

    /// Whether `next` is the moment that follows this one when one of the
    /// two processes carries out its current step.
    pub open spec fn steps_to(self, parent: Seq<StepView>, child: Seq<StepView>, next: Handshake)
        -> bool {
        ||| self.parent_can_step(parent) && next == self.after_parent_step(parent)
        ||| self.child_can_step(child) && next == self.after_child_step(child)
    }
}

/// Whether `moments` is a course that the two processes can take from the
/// fork on: each moment follows from the one before by a step of one of
/// them. A process that fails just takes no further step.
pub open spec fn is_course(parent: Seq<StepView>, child: Seq<StepView>, moments: Seq<Handshake>)
    -> bool {
    &&& moments.len() > 0
    &&& moments[0] == Handshake::initial()
    &&& forall|k: int|
        0 <= k < moments.len() - 1 ==> (#[trigger] moments[k]).steps_to(
            parent,
            child,
            moments[k + 1],
        )
}

spec fn is_mount_step(step: StepView) -> bool {
    step is OpenReadOnly || step is BindMount
}

spec fn is_enter_step(step: StepView) -> bool {
    step is Unshare || step is SetHostname
}

spec fn writes_len(userns: NamespaceView, pid: int) -> int {
    (write_plan(pid, true, userns.uid_mappings).len() + write_plan(
        pid,
        false,
        userns.gid_mappings,
    ).len()) as int
}

spec fn mounts_len(userns: NamespaceView, nses: Seq<NamespaceView>, pid: int) -> int {
    (mount_steps(pid, userns).len() + mounts_plan(pid, nses).len()) as int
}

spec fn enters_len(nses: Seq<NamespaceView>) -> int {
    enters_plan(nses).len() as int
}

spec fn tokens(present: bool, message: Message) -> Seq<Message> {
    if present {
        seq![message]
    } else {
        Seq::empty()
    }
}

proof fn lemma_parent_plan_shape(userns: NamespaceView, nses: Seq<NamespaceView>, pid: int)
    ensures
        ({
            let plan = parent_plan(userns, nses, pid);
            let w = writes_len(userns, pid);
            let m = mounts_len(userns, nses, pid);
            &&& 0 <= w <= 2
            &&& 2 <= m
            &&& plan.len() == 7 + w + m
            &&& plan[0] == StepView::ClosePeerEnds
            &&& plan[1] == StepView::Await { message: Message::UserNsReady }
            &&& forall|i: int| 2 <= i < 2 + w ==> (#[trigger] plan[i]) is WriteFile
            &&& plan[2 + w] == StepView::Send { message: Message::MappingsWritten }
            &&& plan[3 + w] == StepView::Await { message: Message::DependentNsReady }
            &&& forall|i: int| 4 + w <= i < 4 + w + m ==> is_mount_step(#[trigger] plan[i])
            &&& plan[4 + w + m] == StepView::Send { message: Message::Persisted }
            &&& plan[5 + w + m] == StepView::CloseChannels
            &&& plan[6 + w + m] == StepView::WaitChild
        }),
{
    let uid = write_plan(pid, true, userns.uid_mappings);
    let gid = write_plan(pid, false, userns.gid_mappings);
    let first = mount_steps(pid, userns);
    let rest = mounts_plan(pid, nses);
    lemma_flat_map_all(
        nses,
        |ns: NamespaceView| mount_steps(pid, ns),
        |step: StepView| is_mount_step(step),
    );
    let plan = parent_plan(userns, nses, pid);
    let w = writes_len(userns, pid);
    let m = mounts_len(userns, nses, pid);
    assert forall|i: int| 2 <= i < 2 + w implies (#[trigger] plan[i]) is WriteFile by {
        if i < 2 + uid.len() {
            assert(plan[i] == uid[i - 2]);
        } else {
            assert(plan[i] == gid[i - 2 - uid.len()]);
        }
    }
    assert forall|i: int| 4 + w <= i < 4 + w + m implies is_mount_step(#[trigger] plan[i]) by {
        if i < 4 + w + first.len() {
            assert(plan[i] == first[i - 4 - w]);
        } else {
            assert(plan[i] == rest[i - 4 - w - first.len()]);
            assert(is_mount_step(rest[i - 4 - w - first.len()]));
        }
    }
}

proof fn lemma_child_plan_shape(userns: NamespaceView, nses: Seq<NamespaceView>)
    ensures
        ({
            let plan = child_plan(userns, nses);
            let e = enters_len(nses);
            &&& plan.len() == 9 + e
            &&& plan[0] == StepView::ClosePeerEnds
            &&& plan[1] == StepView::Unshare { kind: userns.kind }
            &&& plan[2] == StepView::Send { message: Message::UserNsReady }
            &&& plan[3] == StepView::Await { message: Message::MappingsWritten }
            &&& plan[4] == StepView::SetResUid { uid: 0 }
            &&& plan[5] == StepView::SetResGid { gid: 0 }
            &&& forall|i: int| 6 <= i < 6 + e ==> is_enter_step(#[trigger] plan[i])
            &&& plan[6 + e] == StepView::Send { message: Message::DependentNsReady }
            &&& plan[7 + e] == StepView::Await { message: Message::Persisted }
            &&& plan[8 + e] == StepView::Exit { code: 0 }
        }),
{
    lemma_flat_map_all(
        nses,
        |ns: NamespaceView| enter_steps(ns),
        |step: StepView| is_enter_step(step),
    );
    let plan = child_plan(userns, nses);
    let block = enters_plan(nses);
    assert forall|i: int| 6 <= i < 6 + block.len() implies is_enter_step(#[trigger] plan[i]) by {
        assert(plan[i] == block[i - 6]);
        assert(is_enter_step(block[i - 6]));
    }
}

/// How far each process can be while the other is where it is, and what is
/// in the pipes then.
spec fn in_step(userns: NamespaceView, nses: Seq<NamespaceView>, pid: int, at: Handshake) -> bool {
    let w = writes_len(userns, pid);
    let m = mounts_len(userns, nses, pid);
    let e = enters_len(nses);
    let p = at.parent_done;
    let c = at.child_done;
    &&& p <= 7 + w + m
    &&& c <= 9 + e
    &&& p > 1 ==> c > 2
    &&& c > 3 ==> p > 2 + w
    &&& p > 3 + w ==> c > 6 + e
    &&& c > 7 + e ==> p > 4 + w + m
    &&& at.to_parent == tokens(c > 2 && p <= 1, Message::UserNsReady) + tokens(
        c > 6 + e && p <= 3 + w,
        Message::DependentNsReady,
    )
    &&& at.to_child == tokens(p > 2 + w && c <= 3, Message::MappingsWritten) + tokens(
        p > 4 + w + m && c <= 7 + e,
        Message::Persisted,
    )
}

proof fn lemma_step_keeps_in_step(
    userns: NamespaceView,
    nses: Seq<NamespaceView>,
    pid: int,
    at: Handshake,
    next: Handshake,
)
    requires
        in_step(userns, nses, pid, at),
        at.steps_to(parent_plan(userns, nses, pid), child_plan(userns, nses), next),
    ensures
        in_step(userns, nses, pid, next),
{
    lemma_parent_plan_shape(userns, nses, pid);
    lemma_child_plan_shape(userns, nses);
    let parent = parent_plan(userns, nses, pid);
    let child = child_plan(userns, nses);
    let w = writes_len(userns, pid);
    let m = mounts_len(userns, nses, pid);
    let e = enters_len(nses);
    let p = at.parent_done;
    let c = at.child_done;
    if at.parent_can_step(parent) && next == at.after_parent_step(parent) {
        if 2 <= p < 2 + w {
            assert(parent[p as int] is WriteFile);
        } else if 4 + w <= p < 4 + w + m {
            assert(is_mount_step(parent[p as int]));
        }
        assert(next.to_parent =~= tokens(c > 2 && p + 1 <= 1, Message::UserNsReady) + tokens(
            c > 6 + e && p + 1 <= 3 + w,
            Message::DependentNsReady,
        ));
        assert(next.to_child =~= tokens(p + 1 > 2 + w && c <= 3, Message::MappingsWritten)
            + tokens(p + 1 > 4 + w + m && c <= 7 + e, Message::Persisted));
    } else {
        if 6 <= c < 6 + e {
            assert(is_enter_step(child[c as int]));
        }
        assert(next.to_parent =~= tokens(c + 1 > 2 && p <= 1, Message::UserNsReady) + tokens(
            c + 1 > 6 + e && p <= 3 + w,
            Message::DependentNsReady,
        ));
        assert(next.to_child =~= tokens(p > 2 + w && c + 1 <= 3, Message::MappingsWritten)
            + tokens(p > 4 + w + m && c + 1 <= 7 + e, Message::Persisted));
    }
}

proof fn lemma_course_stays_in_step(
    userns: NamespaceView,
    nses: Seq<NamespaceView>,
    pid: int,
    moments: Seq<Handshake>,
    k: int,
)
    requires
        is_course(parent_plan(userns, nses, pid), child_plan(userns, nses), moments),
        0 <= k < moments.len(),
    ensures
        in_step(userns, nses, pid, moments[k]),
    decreases k,
{
    if k == 0 {
        lemma_parent_plan_shape(userns, nses, pid);
        assert(moments[0].to_parent =~= tokens(false, Message::UserNsReady) + tokens(
            false,
            Message::DependentNsReady,
        ));
        assert(moments[0].to_child =~= tokens(false, Message::MappingsWritten) + tokens(
            false,
            Message::Persisted,
        ));
    } else {
        lemma_course_stays_in_step(userns, nses, pid, moments, k - 1);
        assert(moments[k - 1].steps_to(
            parent_plan(userns, nses, pid),
            child_plan(userns, nses),
            moments[k - 1 + 1],
        ));
        lemma_step_keeps_in_step(userns, nses, pid, moments[k - 1], moments[k]);
    }
}

/// The id maps are written into a user namespace that exists: whenever the
/// parent has written a map, the child has left for its new user
/// namespace before.
pub proof fn lemma_maps_are_written_after_the_unshare(
    userns: NamespaceView,
    nses: Seq<NamespaceView>,
    pid: int,
    moments: Seq<Handshake>,
    k: int,
    i: int,
)
    requires
        is_course(parent_plan(userns, nses, pid), child_plan(userns, nses), moments),
        0 <= k < moments.len(),
        0 <= i < moments[k].parent_done,
        parent_plan(userns, nses, pid)[i] is WriteFile,
    ensures
        exists|j: int|
            0 <= j < moments[k].child_done && #[trigger] child_plan(userns, nses)[j]
                == (StepView::Unshare { kind: userns.kind }),
{
    lemma_course_stays_in_step(userns, nses, pid, moments, k);
    lemma_parent_plan_shape(userns, nses, pid);
    lemma_child_plan_shape(userns, nses);
    let w = writes_len(userns, pid);
    let m = mounts_len(userns, nses, pid);
    if 4 + w <= i < 4 + w + m {
        assert(is_mount_step(parent_plan(userns, nses, pid)[i]));
    }
    assert(child_plan(userns, nses)[1] == (StepView::Unshare { kind: userns.kind }));
}

/// The child takes its ids only under the maps that were asked for:
/// whenever the child has set its user or group id, the parent has written
/// every map before.
pub proof fn lemma_ids_are_taken_after_the_maps(
    userns: NamespaceView,
    nses: Seq<NamespaceView>,
    pid: int,
    moments: Seq<Handshake>,
    k: int,
    j: int,
    i: int,
)
    requires
        is_course(parent_plan(userns, nses, pid), child_plan(userns, nses), moments),
        0 <= k < moments.len(),
        0 <= j < moments[k].child_done,
        child_plan(userns, nses)[j] is SetResUid || child_plan(userns, nses)[j] is SetResGid,
        0 <= i < parent_plan(userns, nses, pid).len(),
        parent_plan(userns, nses, pid)[i] is WriteFile,
    ensures
        i < moments[k].parent_done,
{
    lemma_course_stays_in_step(userns, nses, pid, moments, k);
    lemma_parent_plan_shape(userns, nses, pid);
    lemma_child_plan_shape(userns, nses);
    let w = writes_len(userns, pid);
    let m = mounts_len(userns, nses, pid);
    let e = enters_len(nses);
    if 6 <= j < 6 + e {
        assert(is_enter_step(child_plan(userns, nses)[j]));
    }
    if 4 + w <= i < 4 + w + m {
        assert(is_mount_step(parent_plan(userns, nses, pid)[i]));
    }
}

/// The dependent namespaces are made by a child that has its ids: whenever
/// the child has entered a namespace other than its user namespace, or set
/// a host name, it has set its user and group id before.
pub proof fn lemma_dependents_are_entered_after_the_ids(
    userns: NamespaceView,
    nses: Seq<NamespaceView>,
    j: int,
)
    requires
        2 <= j < child_plan(userns, nses).len(),
        child_plan(userns, nses)[j] is Unshare || child_plan(userns, nses)[j] is SetHostname,
    ensures
        exists|a: int, b: int|
            0 <= a < b < j && #[trigger] child_plan(userns, nses)[a] is SetResUid
                && #[trigger] child_plan(userns, nses)[b] is SetResGid,
{
    lemma_child_plan_shape(userns, nses);
    assert(child_plan(userns, nses)[4] is SetResUid);
    assert(child_plan(userns, nses)[5] is SetResGid);
}

/// What is mounted is there to stay: whenever the parent has mounted a
/// namespace, the child has entered every namespace, and set every host
/// name, before.
pub proof fn lemma_mounts_follow_every_unshare(
    userns: NamespaceView,
    nses: Seq<NamespaceView>,
    pid: int,
    moments: Seq<Handshake>,
    k: int,
    i: int,
    j: int,
)
    requires
        is_course(parent_plan(userns, nses, pid), child_plan(userns, nses), moments),
        0 <= k < moments.len(),
        0 <= i < moments[k].parent_done,
        parent_plan(userns, nses, pid)[i] is BindMount,
        0 <= j < child_plan(userns, nses).len(),
        child_plan(userns, nses)[j] is Unshare || child_plan(userns, nses)[j] is SetHostname,
    ensures
        j < moments[k].child_done,
{
    lemma_course_stays_in_step(userns, nses, pid, moments, k);
    lemma_parent_plan_shape(userns, nses, pid);
    lemma_child_plan_shape(userns, nses);
    let w = writes_len(userns, pid);
    if 2 <= i < 2 + w {
        assert(parent_plan(userns, nses, pid)[i] is WriteFile);
    }
}

/// The child stays until everything is mounted: whenever the child is
/// about to exit, the parent has mounted every namespace before.
pub proof fn lemma_the_child_exits_after_the_mounts(
    userns: NamespaceView,
    nses: Seq<NamespaceView>,
    pid: int,
    moments: Seq<Handshake>,
    k: int,
    i: int,
)
    requires
        is_course(parent_plan(userns, nses, pid), child_plan(userns, nses), moments),
        0 <= k < moments.len(),
        moments[k].child_done < child_plan(userns, nses).len(),
        child_plan(userns, nses)[moments[k].child_done as int] is Exit,
        0 <= i < parent_plan(userns, nses, pid).len(),
        parent_plan(userns, nses, pid)[i] is BindMount,
    ensures
        i < moments[k].parent_done,
{
    lemma_course_stays_in_step(userns, nses, pid, moments, k);
    lemma_parent_plan_shape(userns, nses, pid);
    lemma_child_plan_shape(userns, nses);
    let e = enters_len(nses);
    let c = moments[k].child_done as int;
    if 6 <= c < 6 + e {
        assert(is_enter_step(child_plan(userns, nses)[c]));
    }
}

/// Nothing is read before it is sent: whenever a process has got past a
/// wait, the other has sent the token that the wait was for. So a process
/// that fails before it sends leaves the other waiting; it cannot let it
/// through.
pub proof fn lemma_nothing_is_read_before_it_is_sent(
    userns: NamespaceView,
    nses: Seq<NamespaceView>,
    pid: int,
    moments: Seq<Handshake>,
    k: int,
    i: int,
    message: Message,
)
    requires
        is_course(parent_plan(userns, nses, pid), child_plan(userns, nses), moments),
        0 <= k < moments.len(),
    ensures
        0 <= i < moments[k].parent_done && parent_plan(userns, nses, pid)[i] == (StepView::Await {
            message,
        }) ==> exists|j: int|
            0 <= j < moments[k].child_done && #[trigger] child_plan(userns, nses)[j]
                == (StepView::Send { message }),
        0 <= i < moments[k].child_done && child_plan(userns, nses)[i] == (StepView::Await {
            message,
        }) ==> exists|j: int|
            0 <= j < moments[k].parent_done && #[trigger] parent_plan(userns, nses, pid)[j] == (
            StepView::Send { message }),
{
    lemma_course_stays_in_step(userns, nses, pid, moments, k);
    lemma_parent_plan_shape(userns, nses, pid);
    lemma_child_plan_shape(userns, nses);
    let parent = parent_plan(userns, nses, pid);
    let child = child_plan(userns, nses);
    let w = writes_len(userns, pid);
    let m = mounts_len(userns, nses, pid);
    let e = enters_len(nses);
    if 0 <= i < moments[k].parent_done && parent[i] == (StepView::Await { message }) {
        if 2 <= i < 2 + w {
            assert(parent[i] is WriteFile);
        } else if 4 + w <= i < 4 + w + m {
            assert(is_mount_step(parent[i]));
        }
        if i == 1 {
            assert(child[2] == (StepView::Send { message }));
        } else {
            assert(i == 3 + w);
            assert(child[6 + e] == (StepView::Send { message }));
        }
    }
    if 0 <= i < moments[k].child_done && child[i] == (StepView::Await { message }) {
        if 6 <= i < 6 + e {
            assert(is_enter_step(child[i]));
        }
        if i == 3 {
            assert(parent[2 + w] == (StepView::Send { message }));
        } else {
            assert(i == 7 + e);
            assert(parent[4 + w + m] == (StepView::Send { message }));
        }
    }
}

/// Every token means what its reader takes it to mean: when a process
/// waits and there is a token for it, that token is the one it waits for.
pub proof fn lemma_tokens_arrive_as_awaited(
    userns: NamespaceView,
    nses: Seq<NamespaceView>,
    pid: int,
    moments: Seq<Handshake>,
    k: int,
)
    requires
        is_course(parent_plan(userns, nses, pid), child_plan(userns, nses), moments),
        0 <= k < moments.len(),
    ensures
        ({
            let parent = parent_plan(userns, nses, pid);
            let at = moments[k];
            at.parent_can_step(parent) ==> (parent[at.parent_done as int] matches StepView::Await {
                message,
            } ==> at.to_parent[0] == message)
        }),
        ({
            let child = child_plan(userns, nses);
            let at = moments[k];
            at.child_can_step(child) ==> (child[at.child_done as int] matches StepView::Await {
                message,
            } ==> at.to_child[0] == message)
        }),
{
    lemma_course_stays_in_step(userns, nses, pid, moments, k);
    lemma_parent_plan_shape(userns, nses, pid);
    lemma_child_plan_shape(userns, nses);
    let w = writes_len(userns, pid);
    let m = mounts_len(userns, nses, pid);
    let e = enters_len(nses);
    let p = moments[k].parent_done as int;
    let c = moments[k].child_done as int;
    if 2 <= p < 2 + w {
        assert(parent_plan(userns, nses, pid)[p] is WriteFile);
    } else if 4 + w <= p < 4 + w + m {
        assert(is_mount_step(parent_plan(userns, nses, pid)[p]));
    }
    if 6 <= c < 6 + e {
        assert(is_enter_step(child_plan(userns, nses)[c]));
    }
}

/// The handshake cannot get stuck by itself: as long as one of the two
/// processes has a step left, one of them can take a step. They block each
/// other only where a step has failed.
pub proof fn lemma_one_side_can_always_step(
    userns: NamespaceView,
    nses: Seq<NamespaceView>,
    pid: int,
    moments: Seq<Handshake>,
    k: int,
)
    requires
        is_course(parent_plan(userns, nses, pid), child_plan(userns, nses), moments),
        0 <= k < moments.len(),
        moments[k].parent_done < parent_plan(userns, nses, pid).len() || moments[k].child_done
            < child_plan(userns, nses).len(),
    ensures
        moments[k].parent_can_step(parent_plan(userns, nses, pid)) || moments[k].child_can_step(
            child_plan(userns, nses),
        ),
{
    lemma_course_stays_in_step(userns, nses, pid, moments, k);
    lemma_parent_plan_shape(userns, nses, pid);
    lemma_child_plan_shape(userns, nses);
    let w = writes_len(userns, pid);
    let m = mounts_len(userns, nses, pid);
    let e = enters_len(nses);
    let p = moments[k].parent_done as int;
    let c = moments[k].child_done as int;
    if 2 <= p < 2 + w {
        assert(parent_plan(userns, nses, pid)[p] is WriteFile);
    } else if 4 + w <= p < 4 + w + m {
        assert(is_mount_step(parent_plan(userns, nses, pid)[p]));
    }
    if 6 <= c < 6 + e {
        assert(is_enter_step(child_plan(userns, nses)[c]));
    }
}

} // verus!
