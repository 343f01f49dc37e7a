use nix::sched::CloneFlags;
use persistent_ns::kind::NamespaceType;

#[test]
fn test_namespace_type() {
    let ipc = NamespaceType::Ipc;
    assert_eq!("ipc", ipc.get());
    assert_eq!(CloneFlags::CLONE_NEWIPC, ipc.get_flags());

    let uts = NamespaceType::Uts;
    assert_eq!("uts", uts.get());
    assert_eq!(CloneFlags::CLONE_NEWUTS, uts.get_flags());

    let pid = NamespaceType::Pid;
    assert_eq!("pid", pid.get());
    assert_eq!(CloneFlags::CLONE_NEWPID, pid.get_flags());
}

#[derive(Debug)]
struct NameCase<'a> {
    ns_type: NamespaceType,
    str: &'a str,
}

#[test]
fn test_namespace_type_get() {
    let tests = &[
        NameCase {
            ns_type: NamespaceType::Ipc,
            str: "ipc",
        },
        NameCase {
            ns_type: NamespaceType::Uts,
            str: "uts",
        },
        NameCase {
            ns_type: NamespaceType::Pid,
            str: "pid",
        },
    ];

    for (i, d) in tests.iter().enumerate() {
        let msg = format!("test[{}]: {:?}", i, d);
        assert_eq!(d.str, d.ns_type.get(), "{}", msg)
    }
}

#[derive(Debug)]
struct FlagCase {
    ns_type: NamespaceType,
    ns_flag: CloneFlags,
}

#[test]
fn test_namespace_type_get_flags() {
    let tests = &[
        FlagCase {
            ns_type: NamespaceType::Ipc,
            ns_flag: CloneFlags::CLONE_NEWIPC,
        },
        FlagCase {
            ns_type: NamespaceType::Uts,
            ns_flag: CloneFlags::CLONE_NEWUTS,
        },
        FlagCase {
            ns_type: NamespaceType::Pid,
            ns_flag: CloneFlags::CLONE_NEWPID,
        },
    ];

    for (i, d) in tests.iter().enumerate() {
        let msg = format!("test[{}]: {:?}", i, d);
        assert_eq!(d.ns_flag, d.ns_type.get_flags(), "{}", msg)
    }
}

#[test]
fn user_and_net_have_their_names_and_flags() {
    assert_eq!("user", NamespaceType::User.get());
    assert_eq!("net", NamespaceType::Net.get());
    assert_eq!(CloneFlags::CLONE_NEWUSER, NamespaceType::User.get_flags());
    assert_eq!(CloneFlags::CLONE_NEWNET, NamespaceType::Net.get_flags());
    assert!(NamespaceType::Pid.is_pid());
    assert!(!NamespaceType::Net.is_pid());
}
