//! The catalog of namespace kinds: the name each has under `/proc/<pid>/ns`
//! and the flag that `unshare(2)` takes for it.

use nix::sched::CloneFlags;
use vstd::prelude::*;

verus! {

/// The set of clone flags `nix::sched::CloneFlags`, opaque to the verifier.
#[verifier::external_type_specification]
#[verifier::external_body]
pub struct ExCloneFlags(nix::sched::CloneFlags);

/// The flags that a `CloneFlags` value holds, as the bit pattern that
/// `CloneFlags::bits` returns for it.
pub uninterp spec fn clone_flag_bits(flags: CloneFlags) -> int;

/// `CLONE_NEWUTS` of the Linux ABI.
pub const CLONE_NEWUTS_BITS: i32 = 0x0400_0000;

/// `CLONE_NEWIPC` of the Linux ABI.
pub const CLONE_NEWIPC_BITS: i32 = 0x0800_0000;

/// `CLONE_NEWUSER` of the Linux ABI.
pub const CLONE_NEWUSER_BITS: i32 = 0x1000_0000;

/// `CLONE_NEWPID` of the Linux ABI.
pub const CLONE_NEWPID_BITS: i32 = 0x2000_0000;

/// `CLONE_NEWNET` of the Linux ABI.
pub const CLONE_NEWNET_BITS: i32 = 0x4000_0000;

/// Whether `bits` is the unshare flag of exactly one namespace kind.
pub open spec fn is_namespace_flag(bits: int) -> bool {
    bits == CLONE_NEWUTS_BITS || bits == CLONE_NEWIPC_BITS || bits == CLONE_NEWUSER_BITS
        || bits == CLONE_NEWPID_BITS || bits == CLONE_NEWNET_BITS
}

/// Calls `CloneFlags::from_bits_truncate`, which keeps the bits that name a
/// flag known to nix and drops the others. The five namespace flags are all
/// known to it on Linux, with the values that libc gives them, so for one of
/// those the result holds exactly the bits handed in.
#[verifier::external_body]
fn clone_flags_from_bits(bits: i32) -> (flags: CloneFlags)
    requires
        is_namespace_flag(bits as int),
    ensures
        clone_flag_bits(flags) == bits,
{
    CloneFlags::from_bits_truncate(bits)
}

/// A kind of namespace that a sandbox may want to keep.
#[derive(Clone, Copy, PartialEq, Eq, Debug, Structural)]
pub enum NamespaceType {
    Ipc,
    Uts,
    Pid,
    User,
    Net,
}

impl NamespaceType {
    /// The name of the kind's link under `/proc/<pid>/ns`.
    pub open spec fn name(self) -> Seq<char> {
        match self {
            NamespaceType::Ipc => seq!['i', 'p', 'c'],
            NamespaceType::Uts => seq!['u', 't', 's'],
            NamespaceType::Pid => seq!['p', 'i', 'd'],
            NamespaceType::User => seq!['u', 's', 'e', 'r'],
            NamespaceType::Net => seq!['n', 'e', 't'],
        }
    }

    /// The bits of the kind's unshare flag.
    pub open spec fn flag_bits(self) -> int {
        match self {
            NamespaceType::Ipc => CLONE_NEWIPC_BITS as int,
            NamespaceType::Uts => CLONE_NEWUTS_BITS as int,
            NamespaceType::Pid => CLONE_NEWPID_BITS as int,
            NamespaceType::User => CLONE_NEWUSER_BITS as int,
            NamespaceType::Net => CLONE_NEWNET_BITS as int,
        }
    }

    /// Whether a namespace of this kind can be kept by a bind mount. A PID
    /// namespace cannot: its link is of no use once the thread that made it
    /// is gone.
    pub open spec fn persistable(self) -> bool {
        self != NamespaceType::Pid
    }

    /// Get the string representation of the namespace type.
    pub fn get(&self) -> (name: &str)
        ensures
            name@ == self.name(),
    {
        match *self {
            NamespaceType::Ipc => {
                proof {
                    reveal_strlit("ipc");
                    assert("ipc"@ =~= seq!['i', 'p', 'c']);
                }
                "ipc"
            },
            NamespaceType::Uts => {
                proof {
                    reveal_strlit("uts");
                    assert("uts"@ =~= seq!['u', 't', 's']);
                }
                "uts"
            },
            NamespaceType::Pid => {
                proof {
                    reveal_strlit("pid");
                    assert("pid"@ =~= seq!['p', 'i', 'd']);
                }
                "pid"
            },
            NamespaceType::User => {
                proof {
                    reveal_strlit("user");
                    assert("user"@ =~= seq!['u', 's', 'e', 'r']);
                }
                "user"
            },
            NamespaceType::Net => {
                proof {
                    reveal_strlit("net");
                    assert("net"@ =~= seq!['n', 'e', 't']);
                }
                "net"
            },
        }
    }

    /// Get the associate flags with the namespace type.
    pub fn get_flags(&self) -> (flags: CloneFlags)
        ensures
            clone_flag_bits(flags) == self.flag_bits(),
    {
        match *self {
            NamespaceType::Ipc => clone_flags_from_bits(CLONE_NEWIPC_BITS),
            NamespaceType::Uts => clone_flags_from_bits(CLONE_NEWUTS_BITS),
            NamespaceType::Pid => clone_flags_from_bits(CLONE_NEWPID_BITS),
            NamespaceType::User => clone_flags_from_bits(CLONE_NEWUSER_BITS),
            NamespaceType::Net => clone_flags_from_bits(CLONE_NEWNET_BITS),
        }
    }

    /// Whether this is the one kind that cannot be kept.
    pub fn is_pid(&self) -> (pid: bool)
        ensures
            pid == !self.persistable(),
    {
        match *self {
            NamespaceType::Pid => true,
            _ => false,
        }
    }
}

/// Two kinds with the same name are the same kind, and no name is empty or
/// holds a path separator: each kind has a file of its own under any one
/// directory.
pub proof fn lemma_names_tell_kinds_apart(a: NamespaceType, b: NamespaceType)
    ensures
        a.name() == b.name() ==> a == b,
        a.name().len() > 0,
        !a.name().contains('/'),
        a != b ==> a.name().last() != b.name().last(),
{
    assert(a.name().len() == 3 || a.name().len() == 4);
    if a.name() == b.name() {
        assert(a.name()[0] == b.name()[0]);
        assert(a.name()[1] == b.name()[1]);
    }
}

} // verus!
