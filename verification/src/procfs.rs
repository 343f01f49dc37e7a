//! Where `/proc` shows a namespace or an id map, and where a kept namespace
//! lives on disk.

use crate::decimal::{decimal, decimal_i32};
use vstd::prelude::*;
use vstd::string::*;

verus! {

/// `/proc/`
pub open spec fn proc_root() -> Seq<char> {
    seq!['/', 'p', 'r', 'o', 'c', '/']
}

/// `/ns/`
pub open spec fn ns_dir() -> Seq<char> {
    seq!['/', 'n', 's', '/']
}

/// `/task/`
pub open spec fn task_dir() -> Seq<char> {
    seq!['/', 't', 'a', 's', 'k', '/']
}

/// `/uid_map`
pub open spec fn uid_map_file() -> Seq<char> {
    seq!['/', 'u', 'i', 'd', '_', 'm', 'a', 'p']
}

/// `/gid_map`
pub open spec fn gid_map_file() -> Seq<char> {
    seq!['/', 'g', 'i', 'd', '_', 'm', 'a', 'p']
}

/// `/proc/<pid>/ns/<ns_type>`: the link to a namespace of a process.
pub open spec fn proc_ns_path(pid: int, ns_type: Seq<char>) -> Seq<char> {
    proc_root() + decimal(pid) + ns_dir() + ns_type
}

/// `/proc/<pid>/task/<tid>/ns/<ns_type>`: the link to a namespace of one
/// thread of a process.
pub open spec fn thread_ns_path(pid: int, tid: int, ns_type: Seq<char>) -> Seq<char> {
    proc_root() + decimal(pid) + task_dir() + decimal(tid) + ns_dir() + ns_type
}

/// `/proc/<pid>/uid_map` or `/proc/<pid>/gid_map`.
pub open spec fn proc_id_map_path(pid: int, is_uid: bool) -> Seq<char> {
    proc_root() + decimal(pid) + if is_uid {
        uid_map_file()
    } else {
        gid_map_file()
    }
}

/// `name` below `dir`. An empty directory adds nothing, a directory that
/// ends in a separator gets no second one, and a name that starts at the
/// root stands alone.
pub open spec fn joined(dir: Seq<char>, name: Seq<char>) -> Seq<char> {
    if name.len() > 0 && name[0] == '/' {
        name
    } else if dir.len() == 0 || dir.last() == '/' {
        dir + name
    } else {
        dir + seq!['/'] + name
    }
}

/// Calls `nix::unistd::getpid` and unwraps the `Pid` it returns. Which
/// number that is depends on the process, so nothing is claimed of it.
#[verifier::external_body]
fn current_pid() -> (pid: i32) {
    nix::unistd::getpid().as_raw()
}

/// Calls `nix::unistd::gettid` and unwraps the `Pid` it returns. Which
/// number that is depends on the thread, so nothing is claimed of it.
#[verifier::external_body]
fn current_tid() -> (tid: i32) {
    nix::unistd::gettid().as_raw()
}

fn proc_pid_dir(pid: i32) -> (path: String)
    ensures
        path@ == proc_root() + decimal(pid as int),
{
    let mut path = String::from_str("/proc/");
    let digits = decimal_i32(pid);
    path.append(digits.as_str());
    proof {
        reveal_strlit("/proc/");
        assert("/proc/"@ =~= proc_root());
    }
    path
}

/// The link to the namespace `ns_type` of the process `pid`.
pub fn get_proc_ns_path(pid: i32, ns_type: &str) -> (path: String)
    ensures
        path@ == proc_ns_path(pid as int, ns_type@),
{
    let mut path = proc_pid_dir(pid);
    path.append("/ns/");
    path.append(ns_type);
    proof {
        reveal_strlit("/ns/");
        assert("/ns/"@ =~= ns_dir());
    }
    path
}

/// The link to the namespace `ns_type` of the thread `tid` of the process
/// `pid`.
pub fn get_thread_ns_path(pid: i32, tid: i32, ns_type: &str) -> (path: String)
    ensures
        path@ == thread_ns_path(pid as int, tid as int, ns_type@),
{
    let mut path = proc_pid_dir(pid);
    path.append("/task/");
    let digits = decimal_i32(tid);
    path.append(digits.as_str());
    path.append("/ns/");
    path.append(ns_type);
    proof {
        reveal_strlit("/task/");
        reveal_strlit("/ns/");
        assert("/task/"@ =~= task_dir());
        assert("/ns/"@ =~= ns_dir());
    }
    path
}

/// The link to the namespace `ns_type` of the calling thread. It names the
/// ids that the system reports for the caller, whatever they are.
pub fn get_current_thread_ns_path(ns_type: &str) -> (path: String)
    ensures
        exists|pid: i32, tid: i32|
            path@ == #[trigger] thread_ns_path(pid as int, tid as int, ns_type@),
{
    let pid: i32 = current_pid();
    let tid: i32 = current_tid();
    let path = get_thread_ns_path(pid, tid, ns_type);
    assert(path@ == thread_ns_path(pid as int, tid as int, ns_type@));
    path
}

/// The uid map (`is_uid`) or the gid map of the process `pid`.
pub fn get_proc_id_map_path(pid: i32, is_uid: bool) -> (path: String)
    ensures
        path@ == proc_id_map_path(pid as int, is_uid),
{
    let mut path = proc_pid_dir(pid);
    if is_uid {
        path.append("/uid_map");
        proof {
            reveal_strlit("/uid_map");
            assert("/uid_map"@ =~= uid_map_file());
        }
    } else {
        path.append("/gid_map");
        proof {
            reveal_strlit("/gid_map");
            assert("/gid_map"@ =~= gid_map_file());
        }
    }
    path
}

/// The path of `name` below the directory `dir`.
pub fn join_path(dir: &str, name: &str) -> (path: String)
    ensures
        path@ == joined(dir@, name@),
{
    if !name.is_empty() && name.get_char(0) == '/' {
        return String::from_str(name);
    }
    let len: usize = dir.unicode_len();
    let mut path = String::from_str(dir);
    if len > 0 && dir.get_char(len - 1) != '/' {
        path.append("/");
        proof {
            reveal_strlit("/");
            assert("/"@ =~= seq!['/']);
        }
    }
    path.append(name);
    path
}

} // verus!
