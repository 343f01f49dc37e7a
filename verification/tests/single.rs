use persistent_ns::kind::NamespaceType;
use persistent_ns::namespace::{persist_namespace, worker_result, Namespace, SetupRun};
use persistent_ns::step::{ErrorClass, NsError, Outcome, Run, Step, ECHILD};
use std::path::Path;
use tempfile::Builder;

fn s(text: &str) -> String {
    String::from(text)
}

fn steps_of(run: &mut SetupRun) -> Vec<Step> {
    let mut seen = Vec::new();
    loop {
        let step = match run.current() {
            Some(step) => step.clone(),
            None => return seen,
        };
        seen.push(step);
        run.advance(Outcome::Done);
    }
}

// The steps are reported as done here; nothing is mounted.
#[test]
fn test_setup_persistent_ns() {
    let tmpdir = Builder::new().prefix("ipc").tempdir().unwrap();

    let ns_ipc = Namespace::new()
        .get_ipc()
        .set_root_dir(tmpdir.path().to_str().unwrap())
        .setup();

    assert!(ns_ipc.is_ok());
    let mut run = ns_ipc.unwrap().start();
    steps_of(&mut run);
    let ns_ipc = run.finish();
    assert!(ns_ipc.is_ok());
    assert_eq!(
        Path::new(&ns_ipc.unwrap().path),
        tmpdir.path().join("ipc").as_path()
    );

    let tmpdir = Builder::new().prefix("uts").tempdir().unwrap();

    let ns_uts = Namespace::new()
        .get_uts("test_hostname")
        .set_root_dir(tmpdir.path().to_str().unwrap())
        .setup();

    assert!(ns_uts.is_ok());
    let mut run = ns_uts.unwrap().start();
    let steps = steps_of(&mut run);
    assert_eq!(steps[4], Step::SetHostname { name: s("test_hostname") });
    let ns_uts = run.finish();
    assert!(ns_uts.is_ok());
    assert_eq!(
        Path::new(&ns_uts.unwrap().path),
        tmpdir.path().join("uts").as_path()
    );

    // Check it cannot persist pid namespaces.
    let tmpdir = Builder::new().prefix("pid").tempdir().unwrap();

    let ns_pid = Namespace::new()
        .get_pid()
        .set_root_dir(tmpdir.path().to_str().unwrap())
        .setup();

    assert!(ns_pid.is_err());
    // Nothing was made for it.
    assert!(!tmpdir.path().join("pid").exists());
}

#[test]
fn a_worker_that_died_is_an_error_of_its_own() {
    assert_eq!(worker_result(None), Err(NsError::WorkerPanicked));
    assert_eq!(
        worker_result(Some(Err(NsError::PidNamespace))),
        Err(NsError::PidNamespace)
    );
    let ns = Namespace::new().get_net();
    assert_eq!(worker_result(Some(Ok(ns.clone()))), Ok(ns));
}

#[test]
fn a_pid_namespace_is_a_configuration_error() {
    let error = Namespace::new().get_pid().setup().unwrap_err();
    assert_eq!(error, NsError::PidNamespace);
    assert_eq!(error.class(), ErrorClass::Configuration);
}

#[test]
fn every_other_kind_is_let_through() {
    assert!(Namespace::new().get_ipc().setup().is_ok());
    assert!(Namespace::new().get_uts("").setup().is_ok());
    assert!(Namespace::new().get_user(vec![], vec![]).setup().is_ok());
    assert!(Namespace::new().get_net().setup().is_ok());
}

#[test]
fn the_steps_of_a_network_namespace() {
    let setup = Namespace::new().get_net().set_root_dir("/run/x").setup().unwrap();
    let mut run = setup.start_from(s("/proc/1/task/2/ns/net"));
    assert_eq!(
        steps_of(&mut run),
        vec![
            Step::CreateDirAll { path: s("/run/x") },
            Step::CreateFile { path: s("/run/x/net") },
            Step::OpenReadOnly { path: s("/proc/1/task/2/ns/net") },
            Step::Unshare { kind: NamespaceType::Net },
            Step::BindMount {
                source: s("/proc/1/task/2/ns/net"),
                target: s("/run/x/net"),
            },
        ]
    );
    let ns = run.finish().unwrap();
    assert_eq!(ns.path, "/run/x/net");
    assert_eq!(ns.ns_type, NamespaceType::Net);
    assert_eq!(ns.persistent_ns_dir, "/run/x");
}

#[test]
fn a_hostname_is_set_right_after_the_unshare() {
    let setup = Namespace::new().get_uts("box").setup().unwrap();
    let mut run = setup.start_from(s("/proc/1/task/2/ns/uts"));
    assert_eq!(
        steps_of(&mut run),
        vec![
            Step::CreateDirAll { path: s("/var/run/sandbox-ns") },
            Step::CreateFile { path: s("/var/run/sandbox-ns/uts") },
            Step::OpenReadOnly { path: s("/proc/1/task/2/ns/uts") },
            Step::Unshare { kind: NamespaceType::Uts },
            Step::SetHostname { name: s("box") },
            Step::BindMount {
                source: s("/proc/1/task/2/ns/uts"),
                target: s("/var/run/sandbox-ns/uts"),
            },
        ]
    );
}

#[test]
fn no_hostname_is_set_without_one() {
    let setup = Namespace::new().get_uts("").setup().unwrap();
    let mut run = setup.start_from(s("/proc/1/task/2/ns/uts"));
    let steps = steps_of(&mut run);
    assert_eq!(steps.len(), 5);
    assert!(!steps.iter().any(|step| matches!(step, Step::SetHostname { .. })));
}

#[test]
fn a_hostname_is_for_a_uts_namespace_only() {
    let setup = Namespace::new().get_uts("box").get_ipc().setup().unwrap();
    let mut run = setup.start_from(s("/proc/1/task/2/ns/ipc"));
    let steps = steps_of(&mut run);
    assert_eq!(steps.len(), 5);
    assert!(!steps.iter().any(|step| matches!(step, Step::SetHostname { .. })));
}

#[test]
fn start_takes_the_link_of_the_calling_thread() {
    let setup = Namespace::new().get_ipc().setup().unwrap();
    let mut run = setup.start();
    let steps = steps_of(&mut run);
    let link = format!(
        "/proc/{}/task/{}/ns/ipc",
        nix::unistd::getpid(),
        nix::unistd::gettid()
    );
    assert_eq!(steps[2], Step::OpenReadOnly { path: link.clone() });
    assert_eq!(
        steps[4],
        Step::BindMount {
            source: link,
            target: s("/var/run/sandbox-ns/ipc"),
        }
    );
}

#[test]
fn persist_namespace_steps() {
    let name = s("host");
    assert_eq!(
        persist_namespace(NamespaceType::Uts, Some(&name), "/src", "/dst"),
        vec![
            Step::Unshare { kind: NamespaceType::Uts },
            Step::SetHostname { name: s("host") },
            Step::BindMount { source: s("/src"), target: s("/dst") },
        ]
    );
    assert_eq!(
        persist_namespace(NamespaceType::Uts, None, "/src", "/dst"),
        vec![
            Step::Unshare { kind: NamespaceType::Uts },
            Step::BindMount { source: s("/src"), target: s("/dst") },
        ]
    );
    assert_eq!(
        persist_namespace(NamespaceType::Ipc, Some(&name), "/src", "/dst"),
        vec![
            Step::Unshare { kind: NamespaceType::Ipc },
            Step::BindMount { source: s("/src"), target: s("/dst") },
        ]
    );
}

#[test]
fn the_first_failure_ends_the_setup() {
    let setup = Namespace::new().get_net().set_root_dir("/run/x").setup().unwrap();
    let mut run = setup.start_from(s("/proc/1/task/2/ns/net"));
    run.advance(Outcome::Done);
    run.advance(Outcome::Done);
    run.advance(Outcome::Failed { errno: 2 });
    assert_eq!(run.current(), None);
    // Nothing that is reported afterwards changes that.
    run.advance(Outcome::Done);
    run.advance(Outcome::Failed { errno: 5 });
    assert_eq!(run.current(), None);
    let error = run.finish().unwrap_err();
    assert_eq!(
        error,
        NsError::Failed {
            class: ErrorClass::Resource,
            step: Step::OpenReadOnly { path: s("/proc/1/task/2/ns/net") },
            errno: 2,
        }
    );
    assert_eq!(error.class(), ErrorClass::Resource);
}

#[test]
fn a_refused_kernel_call_is_a_kernel_error() {
    let setup = Namespace::new().get_uts("box").setup().unwrap();
    let mut run = setup.start_from(s("/l"));
    for _ in 0..4 {
        run.advance(Outcome::Done);
    }
    run.advance(Outcome::Failed { errno: 1 });
    assert_eq!(
        run.finish().unwrap_err(),
        NsError::Failed {
            class: ErrorClass::Kernel,
            step: Step::SetHostname { name: s("box") },
            errno: 1,
        }
    );
}

#[test]
fn an_unfinished_setup_hands_out_nothing() {
    let setup = Namespace::new().get_ipc().setup().unwrap();
    let mut run = setup.start_from(s("/l"));
    run.advance(Outcome::Done);
    assert_eq!(run.finish().unwrap_err(), NsError::Unfinished);
}

#[test]
fn a_fork_report_does_not_fit_a_setup_step() {
    let setup = Namespace::new().get_ipc().setup().unwrap();
    let mut run = setup.start_from(s("/l"));
    run.advance(Outcome::Child);
    assert_eq!(run.current(), None);
    let error = run.finish().unwrap_err();
    assert_eq!(
        error,
        NsError::Unexpected {
            step: Step::CreateDirAll { path: s("/var/run/sandbox-ns") },
        }
    );
    assert_eq!(error.class(), ErrorClass::Synchronization);
}

#[test]
fn failure_classes_of_steps() {
    let resource = [
        Step::CreateDirAll { path: s("/d") },
        Step::CreateFile { path: s("/f") },
        Step::OpenReadOnly { path: s("/f") },
    ];
    for step in resource {
        assert_eq!(step.failure_class(), ErrorClass::Resource);
    }
    let kernel = [
        Step::Unshare { kind: NamespaceType::Ipc },
        Step::SetHostname { name: s("h") },
        Step::BindMount { source: s("/a"), target: s("/b") },
        Step::SetResUid { uid: 0 },
        Step::SetResGid { gid: 0 },
    ];
    for step in kernel {
        assert_eq!(step.failure_class(), ErrorClass::Kernel);
    }
    let write = Step::WriteFile { path: s("/m"), data: s("0 0 1\n") };
    assert_eq!(write.failure_class(), ErrorClass::MappingWrite);
    let sync = [
        Step::Fork,
        Step::ClosePeerEnds,
        Step::CloseChannels,
        Step::WaitChild,
        Step::Exit { code: 0 },
    ];
    for step in sync {
        assert_eq!(step.failure_class(), ErrorClass::Synchronization);
    }
    assert_eq!(NsError::WorkerPanicked.class(), ErrorClass::Synchronization);
}

#[test]
fn a_child_that_is_gone_is_no_failure() {
    assert_eq!(ECHILD, nix::errno::Errno::ECHILD as i32);
    assert!(Step::WaitChild.tolerates(ECHILD));
    assert!(!Step::WaitChild.tolerates(4));
    assert!(!Step::Fork.tolerates(ECHILD));

    let mut run = Run::new(vec![Step::CloseChannels, Step::WaitChild]);
    run.advance(Outcome::Done);
    run.advance(Outcome::Failed { errno: ECHILD });
    assert!(run.is_complete());
    assert_eq!(run.into_result(), Ok(()));

    let mut run = Run::new(vec![Step::CloseChannels, Step::WaitChild]);
    run.advance(Outcome::Done);
    run.advance(Outcome::Failed { errno: 4 });
    assert!(!run.is_complete());
    assert_eq!(
        run.into_result(),
        Err(NsError::Failed {
            class: ErrorClass::Synchronization,
            step: Step::WaitChild,
            errno: 4,
        })
    );
}

#[test]
fn a_run_walks_its_steps_in_order() {
    let mut run = Run::new(vec![Step::Fork, Step::WaitChild]);
    assert!(!run.is_complete());
    assert_eq!(run.current(), Some(&Step::Fork));
    assert!(run.current().unwrap().is_fork());
    run.advance(Outcome::Done);
    assert_eq!(run.current(), Some(&Step::WaitChild));
    assert!(!run.current().unwrap().is_fork());
    run.advance(Outcome::Done);
    assert_eq!(run.current(), None);
    assert!(run.is_complete());
    run.advance(Outcome::Failed { errno: 1 });
    assert!(run.is_complete());

    let mut run = Run::new(vec![Step::Fork]);
    run.reject();
    assert_eq!(run.into_result(), Err(NsError::Unexpected { step: Step::Fork }));

    let run = Run::new(vec![]);
    assert!(run.is_complete());
}

#[test]
fn setups_of_two_kinds_do_not_meet() {
    let ipc = Namespace::new().get_ipc().set_root_dir("/tmp/a");
    let uts = Namespace::new().get_uts("h").set_root_dir("/tmp/b");
    let mut first = ipc.setup().unwrap().start_from(s("/l1"));
    let mut second = uts.setup().unwrap().start_from(s("/l2"));
    // The two are driven in turn; neither knows of the other.
    loop {
        let a = first.current().is_some();
        let b = second.current().is_some();
        if !a && !b {
            break;
        }
        first.advance(Outcome::Done);
        second.advance(Outcome::Done);
    }
    let first = first.finish().unwrap();
    let second = second.finish().unwrap();
    assert_eq!(first.path, "/tmp/a/ipc");
    assert_eq!(second.path, "/tmp/b/uts");
    assert_ne!(first.path, second.path);
}

#[test]
fn a_setup_can_be_made_again() {
    for _ in 0..2 {
        let setup = Namespace::new().get_ipc().set_root_dir("/tmp/again").setup().unwrap();
        let mut run = setup.start_from(s("/l"));
        assert_eq!(steps_of(&mut run).len(), 5);
        assert_eq!(run.finish().unwrap().path, "/tmp/again/ipc");
    }
}
