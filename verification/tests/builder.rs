use persistent_ns::idmap::IdMapping;
use persistent_ns::kind::NamespaceType;
use persistent_ns::namespace::Namespace;
use tempfile::Builder;

#[test]
fn test_new() {
    let ns_ipc = Namespace::new();
    assert_eq!(NamespaceType::Ipc, ns_ipc.ns_type);
}

#[test]
fn test_get_ipc() {
    let ns_ipc = Namespace::new().get_ipc();
    assert_eq!(NamespaceType::Ipc, ns_ipc.ns_type);
}

#[test]
fn test_get_uts_with_hostname() {
    let hostname = String::from("a.test.com");

    let ns_uts = Namespace::new().get_uts(hostname.as_str());
    assert_eq!(NamespaceType::Uts, ns_uts.ns_type);
    assert!(ns_uts.hostname.is_some());
}

#[test]
fn test_get_uts() {
    let hostname = String::from("");

    let ns_uts = Namespace::new().get_uts(hostname.as_str());
    assert_eq!(NamespaceType::Uts, ns_uts.ns_type);
    assert!(ns_uts.hostname.is_none());
}

#[test]
fn test_get_pid() {
    let ns_pid = Namespace::new().get_pid();
    assert_eq!(NamespaceType::Pid, ns_pid.ns_type);
}

#[test]
fn test_set_root_dir() {
    let tmpdir = Builder::new().prefix("pid").tempdir().unwrap();

    let ns_root = Namespace::new().set_root_dir(tmpdir.path().to_str().unwrap());
    assert_eq!(NamespaceType::Ipc, ns_root.ns_type);
    assert_eq!(ns_root.persistent_ns_dir, tmpdir.path().to_str().unwrap());
}

#[test]
fn a_new_namespace_is_blank() {
    let ns = Namespace::new();
    assert_eq!(ns.path, "");
    assert_eq!(ns.persistent_ns_dir, "/var/run/sandbox-ns");
    assert_eq!(ns.hostname, None);
    assert_eq!(ns.uid_mappings, None);
    assert_eq!(ns.gid_mappings, None);
}

#[test]
fn the_hostname_is_kept_as_given() {
    let ns = Namespace::new().get_uts("a.test.com");
    assert_eq!(ns.hostname, Some(String::from("a.test.com")));
    // An empty name leaves what was asked for before.
    let ns = ns.get_uts("");
    assert_eq!(ns.hostname, Some(String::from("a.test.com")));
    assert_eq!(ns.ns_type, NamespaceType::Uts);
}

#[test]
fn the_last_kind_wins() {
    let ns = Namespace::new().get_uts("box").get_net();
    assert_eq!(ns.ns_type, NamespaceType::Net);
    let ns = ns.get_pid().get_ipc();
    assert_eq!(ns.ns_type, NamespaceType::Ipc);
    // What was said for another kind stays where it is.
    assert_eq!(ns.hostname, Some(String::from("box")));
}

#[test]
fn get_user_takes_lists_that_are_not_empty() {
    let map = IdMapping {
        container_id: 0,
        host_id: 100000,
        size: 65536,
    };
    let ns = Namespace::new().get_user(vec![map], vec![]);
    assert_eq!(ns.ns_type, NamespaceType::User);
    assert_eq!(ns.uid_mappings, Some(vec![map]));
    assert_eq!(ns.gid_mappings, None);

    let ns = ns.get_user(vec![], vec![map, map]);
    assert_eq!(ns.uid_mappings, Some(vec![map]));
    assert_eq!(ns.gid_mappings, Some(vec![map, map]));
}

#[test]
fn get_net_and_root_dir_touch_nothing_else() {
    let ns = Namespace::new().get_net().set_root_dir("/run/ns");
    assert_eq!(ns.ns_type, NamespaceType::Net);
    assert_eq!(ns.persistent_ns_dir, "/run/ns");
    assert_eq!(ns.path, "");
    assert_eq!(ns.target_path(), "/run/ns/net");
}
