use persistent_ns::decimal::{decimal_i32, decimal_u32, decimal_u64};
use persistent_ns::procfs::{
    get_current_thread_ns_path, get_proc_id_map_path, get_proc_ns_path, get_thread_ns_path,
    join_path,
};
use std::path::Path;

#[test]
fn decimals_of_naturals() {
    assert_eq!(decimal_u64(0), "0");
    assert_eq!(decimal_u64(7), "7");
    assert_eq!(decimal_u64(10), "10");
    assert_eq!(decimal_u64(1234567890), "1234567890");
    assert_eq!(decimal_u64(u64::MAX), "18446744073709551615");
    assert_eq!(decimal_u32(65536), "65536");
    assert_eq!(decimal_u32(u32::MAX), "4294967295");
}

#[test]
fn decimals_agree_with_the_standard_library() {
    let mut n: u64 = 1;
    for _ in 0..64 {
        assert_eq!(decimal_u64(n), n.to_string());
        assert_eq!(decimal_u64(n - 1), (n - 1).to_string());
        n = n.wrapping_mul(2);
    }
    for n in [0u32, 9, 10, 99, 100, 101, 100000, 65535, 65536] {
        assert_eq!(decimal_u32(n), n.to_string());
    }
}

#[test]
fn decimals_of_integers() {
    assert_eq!(decimal_i32(0), "0");
    assert_eq!(decimal_i32(42), "42");
    assert_eq!(decimal_i32(-1), "-1");
    assert_eq!(decimal_i32(-907), "-907");
    assert_eq!(decimal_i32(i32::MAX), "2147483647");
    assert_eq!(decimal_i32(i32::MIN), "-2147483648");
}

#[test]
fn proc_ns_paths() {
    assert_eq!(get_proc_ns_path(1, "ipc"), "/proc/1/ns/ipc");
    assert_eq!(get_proc_ns_path(4242, "user"), "/proc/4242/ns/user");
    assert_eq!(get_proc_ns_path(0, ""), "/proc/0/ns/");
}

#[test]
fn thread_ns_paths() {
    assert_eq!(get_thread_ns_path(10, 11, "uts"), "/proc/10/task/11/ns/uts");
    assert_eq!(get_thread_ns_path(7, 7, "net"), "/proc/7/task/7/ns/net");
}

#[test]
fn the_current_thread_path_names_the_caller() {
    let expected = format!(
        "/proc/{}/task/{}/ns/{}",
        nix::unistd::getpid(),
        nix::unistd::gettid(),
        "ipc"
    );
    assert_eq!(get_current_thread_ns_path("ipc"), expected);
}

#[test]
fn id_map_paths() {
    assert_eq!(get_proc_id_map_path(4242, true), "/proc/4242/uid_map");
    assert_eq!(get_proc_id_map_path(4242, false), "/proc/4242/gid_map");
}

#[test]
fn joined_paths() {
    assert_eq!(join_path("/var/run/sandbox-ns", "ipc"), "/var/run/sandbox-ns/ipc");
    assert_eq!(join_path("/var/run/sandbox-ns/", "ipc"), "/var/run/sandbox-ns/ipc");
    assert_eq!(join_path("", "ipc"), "ipc");
    assert_eq!(join_path("/", "net"), "/net");
    assert_eq!(join_path("rel", "uts"), "rel/uts");
    assert_eq!(join_path("/a", "/b"), "/b");
    assert_eq!(join_path("/a", ""), "/a/");
}

#[test]
fn joined_paths_agree_with_the_standard_library() {
    let dirs = ["", "/", "/tmp", "/tmp/", "/tmp//", "a/b", "a/b/", "/r\u{e9}sum\u{e9}"];
    let names = ["ipc", "uts", "pid", "user", "net", "", "/abs", "x/y"];
    for dir in dirs {
        for name in names {
            let expected = Path::new(dir).join(name);
            assert_eq!(join_path(dir, name), expected.to_str().unwrap());
        }
    }
}
