use svlopp::control::ControlCommand;
use svlopp::control::ControlOp;
use svlopp::service::clone_strings;
use svlopp::service::derive_stop_reason;
use svlopp::service::find_config;
use svlopp::service::handle_sigchld;
use svlopp::service::is_nul_free;
use svlopp::service::is_valid_argv;
use svlopp::service::is_valid_config;
use svlopp::service::is_valid_name;
use svlopp::service::start_service;
use svlopp::service::stop_service;
use svlopp::service::strings_equal;
use svlopp::service::Action;
use svlopp::service::ChildExit;
use svlopp::service::PendingAction;
use svlopp::service::ReapOutcome;
use svlopp::service::RegistryError;
use svlopp::service::ReloadError;
use svlopp::service::Service;
use svlopp::service::ServiceConfig;
use svlopp::service::ServiceIdGen;
use svlopp::service::ServiceRegistry;
use svlopp::service::ServiceState;
use svlopp::service::SpawnError;
use svlopp::service::StopReason;
use svlopp::service::GRACE_PERIOD;
use svlopp::service::MAX_SERVICE_ID;

fn strings(list: &[&str]) -> Vec<String> {
    list.iter().map(|s| s.to_string()).collect()
}

fn entry(name: &str, argv: &[&str]) -> ServiceConfig {
    ServiceConfig::new(name.to_string(), strings(argv))
}

fn record(id: u64, name: &str) -> Service {
    Service::new(id, name.to_string(), strings(&["/bin/sleep", "3600"]))
}

/// A registry with the services `a` (id 0) and `b` (id 1), both running,
/// as processes 100 and 101.
fn two_running() -> ServiceRegistry {
    let mut registry = ServiceRegistry::new();
    assert_eq!(registry.insert_service(record(0, "a")), Ok(()));
    assert_eq!(registry.insert_service(record(1, "b")), Ok(()));
    assert_eq!(registry.register_pid(100, 0), Ok(()));
    assert_eq!(registry.register_pid(101, 1), Ok(()));
    registry
}

fn state_of(registry: &ServiceRegistry, id: u64) -> ServiceState {
    registry.service(id).expect("service is in the registry").state
}

/// Checks on a registry what must hold of it between any two operations.
fn check_invariants(registry: &ServiceRegistry) {
    let records = registry.snapshot();
    let mut pids = Vec::new();
    for (k, svc) in records.iter().enumerate() {
        assert!(svc.is_valid());
        match svc.state {
            ServiceState::Running | ServiceState::Stopping(_) => assert!(svc.pid.is_some()),
            ServiceState::Stopped(_) => {
                assert!(svc.pid.is_none());
                assert_eq!(svc.pending, PendingAction::Idle);
            }
        }
        if let Some(pid) = svc.pid {
            assert_eq!(registry.service_of_pid(pid), Some(svc.id));
            pids.push(pid);
        }
        assert!(svc.id < registry.next_id());
        for other in &records[..k] {
            assert!(other.id < svc.id);
            assert_ne!(other.name, svc.name);
        }
    }
    for pid in -2..300 {
        assert_eq!(registry.service_of_pid(pid).is_some(), pids.contains(&pid));
    }
}

#[test]
fn grace_period_is_five_seconds() {
    assert_eq!(GRACE_PERIOD, 5);
    assert_eq!(MAX_SERVICE_ID, 65_535);
}

#[test]
fn initial_state_is_never_started() {
    assert_eq!(
        ServiceState::default(),
        ServiceState::Stopped(StopReason::NeverStarted)
    );
    let svc = record(4, "svc");
    assert_eq!(svc.id, 4);
    assert_eq!(svc.name, "svc");
    assert_eq!(svc.argv, strings(&["/bin/sleep", "3600"]));
    assert_eq!(svc.pid, None);
    assert_eq!(svc.state, ServiceState::Stopped(StopReason::NeverStarted));
    assert_eq!(svc.pending, PendingAction::Idle);
    assert!(svc.is_valid());
}

#[test]
fn states_know_whether_a_process_belongs_to_them() {
    assert!(ServiceState::Running.is_alive());
    assert!(ServiceState::Stopping(3).is_alive());
    assert!(!ServiceState::Stopped(StopReason::ExitedSuccess).is_alive());
    assert!(ServiceState::Stopped(StopReason::Killed(9)).is_stopped());
    assert!(!ServiceState::Running.is_stopped());
    assert!(!ServiceState::Stopping(0).is_stopped());
}

#[test]
fn setters_change_one_field() {
    let mut svc = record(1, "svc");
    svc.set_pid(12);
    assert_eq!(svc.pid, Some(12));
    assert_eq!(svc.state, ServiceState::Stopped(StopReason::NeverStarted));
    svc.set_state(ServiceState::Running);
    assert_eq!(svc.state, ServiceState::Running);
    assert_eq!(svc.pid, Some(12));
    assert!(svc.is_valid());
}

#[test]
fn a_clone_holds_the_same() {
    let mut svc = record(1, "svc");
    svc.set_pid(12);
    svc.set_state(ServiceState::Stopping(8));
    svc.pending = PendingAction::Restart;
    let copy = svc.clone();
    assert_eq!(copy.id, 1);
    assert_eq!(copy.name, "svc");
    assert_eq!(copy.argv, svc.argv);
    assert_eq!(copy.pid, Some(12));
    assert_eq!(copy.state, ServiceState::Stopping(8));
    assert_eq!(copy.pending, PendingAction::Restart);
    let cfg = entry("n", &["x", "y"]);
    assert_eq!(cfg.clone(), cfg);
}

#[test]
fn validity_of_records() {
    assert!(!Service::new(65_536, "svc".to_string(), strings(&["x"])).is_valid());
    assert!(!Service::new(u64::MAX, "svc".to_string(), strings(&["x"])).is_valid());
    assert!(Service::new(65_535, "svc".to_string(), strings(&["x"])).is_valid());
    assert!(!Service::new(0, String::new(), strings(&["x"])).is_valid());
    assert!(!Service::new(0, "a\0b".to_string(), strings(&["x"])).is_valid());
    assert!(!Service::new(0, "svc".to_string(), Vec::new()).is_valid());
    assert!(!Service::new(0, "svc".to_string(), strings(&["x", "a\0"])).is_valid());
    let mut svc = record(0, "svc");
    svc.state = ServiceState::Running;
    assert!(!svc.is_valid());
    svc.pid = Some(0);
    assert!(!svc.is_valid());
    svc.pid = Some(1);
    assert!(svc.is_valid());
    svc.state = ServiceState::Stopped(StopReason::ExitedSuccess);
    assert!(!svc.is_valid());
    svc.pid = None;
    assert!(svc.is_valid());
    svc.pending = PendingAction::Restart;
    assert!(!svc.is_valid());
}

#[test]
fn nul_is_found_wherever_it_stands() {
    assert!(is_nul_free(""));
    assert!(is_nul_free("plain"));
    assert!(is_nul_free("\u{1}\u{e9}\u{4e2d}"));
    assert!(!is_nul_free("\0"));
    assert!(!is_nul_free("\0abc"));
    assert!(!is_nul_free("ab\0c"));
    assert!(!is_nul_free("abc\0"));
    assert!(is_valid_name(&"svc".to_string()));
    assert!(!is_valid_name(&String::new()));
    assert!(!is_valid_name(&"s\0".to_string()));
    assert!(is_valid_argv(&strings(&["/bin/sh", "-c", ""])));
    assert!(!is_valid_argv(&Vec::new()));
    assert!(!is_valid_argv(&strings(&["\0"])));
}

#[test]
fn lists_of_strings_compare_and_copy() {
    let a = strings(&["x", "y"]);
    assert_eq!(clone_strings(&a), a);
    assert_eq!(clone_strings(&Vec::new()), Vec::<String>::new());
    assert!(strings_equal(&a, &strings(&["x", "y"])));
    assert!(!strings_equal(&a, &strings(&["x"])));
    assert!(!strings_equal(&a, &strings(&["x", "z"])));
    assert!(!strings_equal(&a, &strings(&["y", "x"])));
    assert!(strings_equal(&Vec::new(), &Vec::new()));
}

#[test]
fn stop_reason_follows_the_table() {
    let crash = [11, 6, 8, 4, 7];
    for stopping in [false, true] {
        assert_eq!(
            derive_stop_reason(ChildExit::Exited(0), stopping),
            StopReason::ExitedSuccess
        );
        for signo in crash {
            assert_eq!(
                derive_stop_reason(ChildExit::Signaled(signo), stopping),
                StopReason::Crashed(signo)
            );
        }
    }
    for code in [1, 2, 127, 255, -1] {
        assert_eq!(
            derive_stop_reason(ChildExit::Exited(code), false),
            StopReason::ExitedError(code)
        );
        assert_eq!(
            derive_stop_reason(ChildExit::Exited(code), true),
            StopReason::SupervisorTerminated
        );
    }
    for signo in [1, 2, 3, 9, 13, 15] {
        assert_eq!(
            derive_stop_reason(ChildExit::Signaled(signo), false),
            StopReason::Killed(signo)
        );
        assert_eq!(
            derive_stop_reason(ChildExit::Signaled(signo), true),
            StopReason::SupervisorTerminated
        );
    }
}

#[test]
fn ids_start_at_zero_and_grow_by_one() {
    let mut ids = ServiceIdGen::new();
    assert_eq!(ids.nextval(), Some(0));
    assert_eq!(ids.nextval(), Some(1));
    assert_eq!(ids.nextval(), Some(2));
}

#[test]
fn new_generators_are_equal_and_issue_the_same_ids() {
    assert_eq!(ServiceIdGen::default(), ServiceIdGen::new());
    let mut a = ServiceIdGen::new();
    let mut b = ServiceIdGen::new();
    assert_eq!(a, b);
    assert_eq!(a.nextval(), Some(0));
    assert_ne!(a, b);
    assert!(b < a);
    assert_eq!(b.nextval(), Some(0));
    assert_eq!(a, b);
    for _ in 0..100 {
        assert_eq!(a.nextval(), b.nextval());
        assert_eq!(a, b);
    }
}

#[test]
fn ids_are_distinct_until_they_run_out() {
    let mut ids = ServiceIdGen::new();
    let mut last = None;
    for expected in 0..65_535u64 {
        let id = ids.nextval();
        assert_eq!(id, Some(expected));
        assert_ne!(id, last);
        last = id;
    }
    assert_eq!(ids.nextval(), Some(65_535));
    let spent = ids;
    assert_eq!(ids.nextval(), None);
    assert_eq!(ids, spent);
    assert_eq!(ids.nextval(), None);
    assert_eq!(ids, spent);
}

#[test]
fn start_service_records_the_child() {
    let mut svc = record(0, "svc");
    assert_eq!(start_service(&mut svc, 4321), Ok(()));
    assert_eq!(svc.state, ServiceState::Running);
    assert_eq!(svc.pid, Some(4321));
}

#[test]
fn start_service_leaves_the_record_when_the_fork_failed() {
    for forked in [-1, 0, i32::MIN] {
        let mut svc = record(0, "svc");
        assert_eq!(start_service(&mut svc, forked), Err(SpawnError::ForkFailed));
        assert_eq!(svc.state, ServiceState::Stopped(StopReason::NeverStarted));
        assert_eq!(svc.pid, None);
    }
}

#[test]
fn start_service_refuses_a_service_that_has_a_process() {
    let mut svc = record(0, "svc");
    assert_eq!(start_service(&mut svc, 10), Ok(()));
    assert_eq!(start_service(&mut svc, 11), Err(SpawnError::NotStopped));
    assert_eq!(svc.pid, Some(10));
    assert_eq!(start_service(&mut svc, -1), Err(SpawnError::NotStopped));
}

#[test]
fn stop_service_sets_the_deadline_a_grace_period_away() {
    let mut svc = record(0, "svc");
    assert_eq!(start_service(&mut svc, 10), Ok(()));
    assert_eq!(stop_service(&mut svc, 1000), Some(10));
    assert_eq!(svc.state, ServiceState::Stopping(1005));
    assert_eq!(svc.pid, Some(10));
}

#[test]
fn stop_service_is_idempotent_on_stopping_and_nothing_on_stopped() {
    let mut svc = record(0, "svc");
    assert_eq!(stop_service(&mut svc, 1000), None);
    assert_eq!(svc.state, ServiceState::Stopped(StopReason::NeverStarted));
    assert_eq!(start_service(&mut svc, 10), Ok(()));
    assert_eq!(stop_service(&mut svc, 1000), Some(10));
    assert_eq!(stop_service(&mut svc, 2000), None);
    assert_eq!(svc.state, ServiceState::Stopping(1005));
}

#[test]
fn stop_service_at_the_largest_time_that_has_a_deadline() {
    let mut svc = record(0, "svc");
    assert_eq!(start_service(&mut svc, 10), Ok(()));
    assert_eq!(stop_service(&mut svc, u64::MAX - 5), Some(10));
    assert_eq!(svc.state, ServiceState::Stopping(u64::MAX));
}

#[test]
fn new_registry_is_empty() {
    let registry = ServiceRegistry::new();
    assert!(registry.service(0).is_none());
    assert_eq!(registry.service_of_pid(1), None);
    assert_eq!(registry.next_id(), 0);
    assert!(registry.all_stopped());
    assert!(registry.snapshot().is_empty());
    assert!(registry.tick(u64::MAX).is_empty());
    check_invariants(&registry);
}

#[test]
fn insert_service_takes_a_fresh_record() {
    let mut registry = ServiceRegistry::new();
    assert_eq!(registry.insert_service(record(0, "a")), Ok(()));
    assert_eq!(registry.insert_service(record(5, "b")), Ok(()));
    assert_eq!(registry.next_id(), 6);
    assert_eq!(registry.service(0).map(|s| s.name.clone()), Some("a".to_string()));
    assert_eq!(registry.service(5).map(|s| s.name.clone()), Some("b".to_string()));
    assert!(registry.service(1).is_none());
    assert_eq!(registry.find_by_name(&"b".to_string()), Some(5));
    assert_eq!(registry.find_by_name(&"c".to_string()), None);
    check_invariants(&registry);
}

#[test]
fn insert_service_refuses_what_is_not_fresh() {
    let mut registry = ServiceRegistry::new();
    assert_eq!(registry.insert_service(record(3, "a")), Ok(()));
    let mut started = record(4, "s");
    started.state = ServiceState::Running;
    started.pid = Some(9);
    assert_eq!(
        registry.insert_service(started),
        Err(RegistryError::InvalidService)
    );
    let mut exited = record(4, "s");
    exited.state = ServiceState::Stopped(StopReason::ExitedSuccess);
    assert_eq!(
        registry.insert_service(exited),
        Err(RegistryError::InvalidService)
    );
    assert_eq!(
        registry.insert_service(Service::new(4, String::new(), strings(&["x"]))),
        Err(RegistryError::InvalidService)
    );
    assert_eq!(
        registry.insert_service(record(65_536, "big")),
        Err(RegistryError::InvalidService)
    );
    assert_eq!(
        registry.insert_service(record(3, "other")),
        Err(RegistryError::DuplicateId)
    );
    assert_eq!(
        registry.insert_service(record(2, "other")),
        Err(RegistryError::DuplicateId)
    );
    assert_eq!(
        registry.insert_service(record(4, "a")),
        Err(RegistryError::DuplicateName)
    );
    assert_eq!(registry.next_id(), 4);
    assert_eq!(registry.snapshot().len(), 1);
    check_invariants(&registry);
}

#[test]
fn register_pid_makes_the_service_run() {
    let registry = two_running();
    assert_eq!(state_of(&registry, 0), ServiceState::Running);
    assert_eq!(registry.service(0).and_then(|s| s.pid), Some(100));
    assert_eq!(registry.service_of_pid(100), Some(0));
    assert_eq!(registry.service_of_pid(101), Some(1));
    assert_eq!(registry.service_of_pid(102), None);
    assert!(!registry.all_stopped());
    check_invariants(&registry);
}

#[test]
fn register_pid_refusals_change_nothing() {
    let mut registry = ServiceRegistry::new();
    assert_eq!(registry.insert_service(record(0, "a")), Ok(()));
    assert_eq!(registry.insert_service(record(1, "b")), Ok(()));
    assert_eq!(registry.register_pid(50, 9), Err(SpawnError::UnknownService));
    assert_eq!(registry.register_pid(-1, 0), Err(SpawnError::ForkFailed));
    assert_eq!(registry.register_pid(0, 0), Err(SpawnError::ForkFailed));
    assert_eq!(state_of(&registry, 0), ServiceState::Stopped(StopReason::NeverStarted));
    assert_eq!(registry.register_pid(50, 0), Ok(()));
    assert_eq!(registry.register_pid(51, 0), Err(SpawnError::NotStopped));
    assert_eq!(registry.register_pid(-1, 0), Err(SpawnError::NotStopped));
    assert_eq!(registry.register_pid(50, 1), Err(SpawnError::PidInUse));
    assert_eq!(state_of(&registry, 1), ServiceState::Stopped(StopReason::NeverStarted));
    assert_eq!(registry.service_of_pid(50), Some(0));
    assert_eq!(registry.service_of_pid(51), None);
    check_invariants(&registry);
}

#[test]
fn control_start_spawns_a_stopped_service_only() {
    let mut registry = ServiceRegistry::new();
    assert_eq!(registry.insert_service(record(0, "a")), Ok(()));
    let start = ControlCommand::new(ControlOp::Start, 0);
    assert_eq!(registry.apply_control(start, 10), Some(Action::Spawn(0)));
    assert_eq!(state_of(&registry, 0), ServiceState::Stopped(StopReason::NeverStarted));
    assert_eq!(registry.register_pid(100, 0), Ok(()));
    assert_eq!(registry.apply_control(start, 10), None);
    assert_eq!(state_of(&registry, 0), ServiceState::Running);
    assert_eq!(
        registry.apply_control(ControlCommand::new(ControlOp::Stop, 0), 10),
        Some(Action::Terminate(100))
    );
    assert_eq!(registry.apply_control(start, 11), None);
    assert_eq!(state_of(&registry, 0), ServiceState::Stopping(15));
    check_invariants(&registry);
}

#[test]
fn control_stop_is_graceful_then_idempotent() {
    let mut registry = two_running();
    let stop = ControlCommand::new(ControlOp::Stop, 1);
    assert_eq!(registry.apply_control(stop, 1000), Some(Action::Terminate(101)));
    assert_eq!(state_of(&registry, 1), ServiceState::Stopping(1005));
    assert_eq!(registry.apply_control(stop, 2000), None);
    assert_eq!(state_of(&registry, 1), ServiceState::Stopping(1005));
    assert_eq!(state_of(&registry, 0), ServiceState::Running);
    assert_eq!(
        handle_sigchld(&mut registry, 101, ChildExit::Exited(0)),
        ReapOutcome::Stopped(1, StopReason::ExitedSuccess)
    );
    assert_eq!(registry.apply_control(stop, 3000), None);
    assert_eq!(state_of(&registry, 1), ServiceState::Stopped(StopReason::ExitedSuccess));
    check_invariants(&registry);
}

#[test]
fn control_restart_of_a_running_service_stops_it_and_starts_it_after_the_reap() {
    let mut registry = two_running();
    let restart = ControlCommand::new(ControlOp::Restart, 0);
    assert_eq!(registry.apply_control(restart, 7), Some(Action::Terminate(100)));
    assert_eq!(state_of(&registry, 0), ServiceState::Stopping(12));
    assert_eq!(registry.service(0).map(|s| s.pending), Some(PendingAction::Restart));
    check_invariants(&registry);
    assert_eq!(
        handle_sigchld(&mut registry, 100, ChildExit::Signaled(15)),
        ReapOutcome::Restart(0, StopReason::SupervisorTerminated)
    );
    assert_eq!(state_of(&registry, 0), ServiceState::Stopped(StopReason::SupervisorTerminated));
    assert_eq!(registry.service(0).map(|s| s.pending), Some(PendingAction::Idle));
    assert_eq!(registry.register_pid(200, 0), Ok(()));
    assert_eq!(state_of(&registry, 0), ServiceState::Running);
    check_invariants(&registry);
}

#[test]
fn control_restart_of_a_stopping_service_marks_it_only() {
    let mut registry = two_running();
    assert_eq!(
        registry.apply_control(ControlCommand::new(ControlOp::Stop, 0), 7),
        Some(Action::Terminate(100))
    );
    assert_eq!(
        registry.apply_control(ControlCommand::new(ControlOp::Restart, 0), 50),
        None
    );
    assert_eq!(state_of(&registry, 0), ServiceState::Stopping(12));
    assert_eq!(registry.service(0).map(|s| s.pending), Some(PendingAction::Restart));
    check_invariants(&registry);
}

#[test]
fn control_restart_of_a_stopped_service_spawns_it() {
    let mut registry = ServiceRegistry::new();
    assert_eq!(registry.insert_service(record(0, "a")), Ok(()));
    assert_eq!(
        registry.apply_control(ControlCommand::new(ControlOp::Restart, 0), 7),
        Some(Action::Spawn(0))
    );
    assert_eq!(registry.service(0).map(|s| s.pending), Some(PendingAction::Idle));
    check_invariants(&registry);
}

#[test]
fn control_for_an_unknown_service_does_nothing() {
    let mut registry = two_running();
    for op in [ControlOp::Start, ControlOp::Stop, ControlOp::Restart] {
        assert_eq!(registry.apply_control(ControlCommand::new(op, 2), 7), None);
        assert_eq!(registry.apply_control(ControlCommand::new(op, u64::MAX), 7), None);
    }
    assert_eq!(state_of(&registry, 0), ServiceState::Running);
    assert_eq!(state_of(&registry, 1), ServiceState::Running);
    check_invariants(&registry);
}

#[test]
fn reap_of_an_unknown_pid_is_ignored() {
    let mut registry = two_running();
    assert_eq!(
        handle_sigchld(&mut registry, 999, ChildExit::Exited(0)),
        ReapOutcome::UnknownPid
    );
    assert_eq!(state_of(&registry, 0), ServiceState::Running);
    assert_eq!(registry.service_of_pid(100), Some(0));
    check_invariants(&registry);
}

#[test]
fn reap_clears_the_pid_and_sets_the_reason() {
    let mut registry = two_running();
    assert_eq!(
        handle_sigchld(&mut registry, 100, ChildExit::Exited(3)),
        ReapOutcome::Stopped(0, StopReason::ExitedError(3))
    );
    assert_eq!(state_of(&registry, 0), ServiceState::Stopped(StopReason::ExitedError(3)));
    assert_eq!(registry.service(0).and_then(|s| s.pid), None);
    assert_eq!(registry.service_of_pid(100), None);
    assert_eq!(registry.service_of_pid(101), Some(1));
    assert_eq!(
        handle_sigchld(&mut registry, 100, ChildExit::Exited(3)),
        ReapOutcome::UnknownPid
    );
    check_invariants(&registry);
}

#[test]
fn reap_reason_depends_on_the_state_the_service_was_in() {
    for (exit, running, stopping) in [
        (ChildExit::Exited(0), StopReason::ExitedSuccess, StopReason::ExitedSuccess),
        (ChildExit::Exited(2), StopReason::ExitedError(2), StopReason::SupervisorTerminated),
        (ChildExit::Signaled(11), StopReason::Crashed(11), StopReason::Crashed(11)),
        (ChildExit::Signaled(15), StopReason::Killed(15), StopReason::SupervisorTerminated),
        (ChildExit::Signaled(9), StopReason::Killed(9), StopReason::SupervisorTerminated),
    ] {
        let mut registry = two_running();
        assert_eq!(
            registry.apply_control(ControlCommand::new(ControlOp::Stop, 1), 0),
            Some(Action::Terminate(101))
        );
        assert_eq!(
            handle_sigchld(&mut registry, 100, exit),
            ReapOutcome::Stopped(0, running)
        );
        assert_eq!(
            handle_sigchld(&mut registry, 101, exit),
            ReapOutcome::Stopped(1, stopping)
        );
        assert_eq!(state_of(&registry, 0), ServiceState::Stopped(running));
        assert_eq!(state_of(&registry, 1), ServiceState::Stopped(stopping));
        assert!(registry.all_stopped());
        check_invariants(&registry);
    }
}

#[test]
fn tick_kills_what_is_past_its_deadline() {
    let mut registry = two_running();
    assert!(registry.tick(u64::MAX).is_empty());
    assert_eq!(
        registry.apply_control(ControlCommand::new(ControlOp::Stop, 1), 1000),
        Some(Action::Terminate(101))
    );
    assert!(registry.tick(1000).is_empty());
    assert!(registry.tick(1004).is_empty());
    assert_eq!(registry.tick(1005), vec![Action::Kill(101)]);
    assert_eq!(registry.tick(1006), vec![Action::Kill(101)]);
    assert_eq!(state_of(&registry, 1), ServiceState::Stopping(1005));
    assert_eq!(
        registry.apply_control(ControlCommand::new(ControlOp::Stop, 0), 1002),
        Some(Action::Terminate(100))
    );
    assert_eq!(registry.tick(1006), vec![Action::Kill(101)]);
    assert_eq!(registry.tick(1007), vec![Action::Kill(100), Action::Kill(101)]);
    check_invariants(&registry);
}

#[test]
fn stop_all_stops_every_running_service() {
    let mut registry = two_running();
    assert_eq!(registry.insert_service(record(2, "c")), Ok(()));
    assert_eq!(
        registry.apply_control(ControlCommand::new(ControlOp::Stop, 0), 10),
        Some(Action::Terminate(100))
    );
    assert_eq!(registry.stop_all(20), vec![Action::Terminate(101)]);
    assert_eq!(state_of(&registry, 0), ServiceState::Stopping(15));
    assert_eq!(state_of(&registry, 1), ServiceState::Stopping(25));
    assert_eq!(state_of(&registry, 2), ServiceState::Stopped(StopReason::NeverStarted));
    assert!(registry.stop_all(30).is_empty());
    assert_eq!(state_of(&registry, 1), ServiceState::Stopping(25));
    check_invariants(&registry);
}

#[test]
fn stop_all_sends_terminations_by_rising_id() {
    let mut registry = two_running();
    assert_eq!(
        registry.stop_all(0),
        vec![Action::Terminate(100), Action::Terminate(101)]
    );
    assert!(!registry.all_stopped());
    check_invariants(&registry);
}

#[test]
fn snapshot_lists_the_records_by_rising_id() {
    let mut registry = two_running();
    assert_eq!(registry.insert_service(record(7, "z")), Ok(()));
    let records = registry.snapshot();
    let seen: Vec<(u64, String, Option<i32>, ServiceState)> = records
        .iter()
        .map(|s| (s.id, s.name.clone(), s.pid, s.state))
        .collect();
    assert_eq!(
        seen,
        vec![
            (0, "a".to_string(), Some(100), ServiceState::Running),
            (1, "b".to_string(), Some(101), ServiceState::Running),
            (
                7,
                "z".to_string(),
                None,
                ServiceState::Stopped(StopReason::NeverStarted)
            ),
        ]
    );
}

#[test]
fn config_lookup_is_by_name() {
    let cfg = vec![entry("a", &["x"]), entry("b", &["y"])];
    assert_eq!(find_config(&cfg, &"a".to_string()), Some(0));
    assert_eq!(find_config(&cfg, &"b".to_string()), Some(1));
    assert_eq!(find_config(&cfg, &"c".to_string()), None);
    assert_eq!(find_config(&Vec::new(), &"a".to_string()), None);
}

#[test]
fn config_validity() {
    assert!(is_valid_config(&Vec::new()));
    assert!(is_valid_config(&vec![entry("a", &["x"]), entry("b", &["x"])]));
    assert!(!is_valid_config(&vec![entry("a", &["x"]), entry("a", &["y"])]));
    assert!(!is_valid_config(&vec![entry("", &["x"])]));
    assert!(!is_valid_config(&vec![entry("a", &[])]));
    assert!(!is_valid_config(&vec![entry("a", &["x"]), entry("b", &["x", "\0"])]));
    assert!(entry("a", &["x"]).is_valid());
    assert!(!entry("a\0", &["x"]).is_valid());
}

#[test]
fn reload_of_an_empty_registry_adds_every_service() {
    let mut registry = ServiceRegistry::new();
    let cfg = vec![entry("a", &["/bin/a"]), entry("b", &["/bin/b", "-v"])];
    assert_eq!(
        registry.reload(&cfg, 0),
        Ok(vec![Action::Spawn(0), Action::Spawn(1)])
    );
    assert_eq!(registry.next_id(), 2);
    let a = registry.service(0).expect("a was added");
    assert_eq!(a.name, "a");
    assert_eq!(a.argv, strings(&["/bin/a"]));
    assert_eq!(a.state, ServiceState::Stopped(StopReason::NeverStarted));
    let b = registry.service(1).expect("b was added");
    assert_eq!(b.name, "b");
    assert_eq!(b.argv, strings(&["/bin/b", "-v"]));
    check_invariants(&registry);
}

#[test]
fn reload_with_the_same_configuration_changes_nothing() {
    let mut registry = two_running();
    let cfg = vec![
        entry("a", &["/bin/sleep", "3600"]),
        entry("b", &["/bin/sleep", "3600"]),
    ];
    assert_eq!(registry.reload(&cfg, 5), Ok(Vec::new()));
    assert_eq!(state_of(&registry, 0), ServiceState::Running);
    assert_eq!(state_of(&registry, 1), ServiceState::Running);
    assert_eq!(registry.next_id(), 2);
    check_invariants(&registry);
}

#[test]
fn reload_removes_a_stopped_service_at_once() {
    let mut registry = ServiceRegistry::new();
    assert_eq!(registry.insert_service(record(0, "a")), Ok(()));
    assert_eq!(registry.insert_service(record(1, "b")), Ok(()));
    let cfg = vec![entry("b", &["/bin/sleep", "3600"])];
    assert_eq!(registry.reload(&cfg, 5), Ok(Vec::new()));
    assert!(registry.service(0).is_none());
    assert!(registry.service(1).is_some());
    assert_eq!(registry.next_id(), 2);
    check_invariants(&registry);
}

#[test]
fn reload_stops_a_running_service_that_is_removed_and_drops_it_after_the_reap() {
    let mut registry = two_running();
    let cfg = vec![entry("a", &["/bin/sleep", "3600"])];
    assert_eq!(registry.reload(&cfg, 100), Ok(vec![Action::Terminate(101)]));
    assert_eq!(state_of(&registry, 1), ServiceState::Stopping(105));
    assert_eq!(registry.service(1).map(|s| s.pending), Some(PendingAction::Remove));
    assert_eq!(state_of(&registry, 0), ServiceState::Running);
    check_invariants(&registry);
    assert_eq!(
        handle_sigchld(&mut registry, 101, ChildExit::Signaled(15)),
        ReapOutcome::Removed(1, StopReason::SupervisorTerminated)
    );
    assert!(registry.service(1).is_none());
    assert_eq!(registry.service_of_pid(101), None);
    check_invariants(&registry);
}

#[test]
fn reload_marks_a_stopping_service_that_is_removed() {
    let mut registry = two_running();
    assert_eq!(
        registry.apply_control(ControlCommand::new(ControlOp::Stop, 1), 10),
        Some(Action::Terminate(101))
    );
    let cfg = vec![entry("a", &["/bin/sleep", "3600"])];
    assert_eq!(registry.reload(&cfg, 100), Ok(Vec::new()));
    assert_eq!(state_of(&registry, 1), ServiceState::Stopping(15));
    assert_eq!(registry.service(1).map(|s| s.pending), Some(PendingAction::Remove));
    check_invariants(&registry);
}

#[test]
fn reload_of_a_changed_stopped_service_replaces_the_command_and_spawns() {
    let mut registry = ServiceRegistry::new();
    assert_eq!(registry.insert_service(record(0, "a")), Ok(()));
    let cfg = vec![entry("a", &["/bin/other", "-x"])];
    assert_eq!(registry.reload(&cfg, 100), Ok(vec![Action::Spawn(0)]));
    let a = registry.service(0).expect("a stays");
    assert_eq!(a.argv, strings(&["/bin/other", "-x"]));
    assert_eq!(a.state, ServiceState::Stopped(StopReason::NeverStarted));
    assert_eq!(a.pending, PendingAction::Idle);
    check_invariants(&registry);
}

#[test]
fn reload_of_a_changed_running_service_stops_it_for_a_restart() {
    let mut registry = two_running();
    let cfg = vec![
        entry("a", &["/bin/sleep", "60"]),
        entry("b", &["/bin/sleep", "3600"]),
    ];
    assert_eq!(registry.reload(&cfg, 100), Ok(vec![Action::Terminate(100)]));
    let a = registry.service(0).expect("a stays");
    assert_eq!(a.argv, strings(&["/bin/sleep", "60"]));
    assert_eq!(a.state, ServiceState::Stopping(105));
    assert_eq!(a.pending, PendingAction::Restart);
    assert_eq!(a.pid, Some(100));
    assert_eq!(state_of(&registry, 1), ServiceState::Running);
    check_invariants(&registry);
    assert_eq!(
        handle_sigchld(&mut registry, 100, ChildExit::Exited(0)),
        ReapOutcome::Restart(0, StopReason::ExitedSuccess)
    );
    assert_eq!(registry.register_pid(300, 0), Ok(()));
    assert_eq!(state_of(&registry, 0), ServiceState::Running);
    check_invariants(&registry);
}

#[test]
fn reload_of_a_changed_stopping_service_marks_it_for_a_restart() {
    let mut registry = two_running();
    assert_eq!(
        registry.apply_control(ControlCommand::new(ControlOp::Stop, 0), 10),
        Some(Action::Terminate(100))
    );
    let cfg = vec![
        entry("a", &["/bin/sleep", "60"]),
        entry("b", &["/bin/sleep", "3600"]),
    ];
    assert_eq!(registry.reload(&cfg, 100), Ok(Vec::new()));
    let a = registry.service(0).expect("a stays");
    assert_eq!(a.argv, strings(&["/bin/sleep", "60"]));
    assert_eq!(a.state, ServiceState::Stopping(15));
    assert_eq!(a.pending, PendingAction::Restart);
    check_invariants(&registry);
}

#[test]
fn reload_gives_added_services_ids_that_were_never_used() {
    let mut registry = ServiceRegistry::new();
    assert_eq!(
        registry.reload(&vec![entry("a", &["x"]), entry("b", &["x"])], 0),
        Ok(vec![Action::Spawn(0), Action::Spawn(1)])
    );
    assert_eq!(registry.reload(&vec![entry("a", &["x"])], 0), Ok(Vec::new()));
    assert!(registry.service(1).is_none());
    assert_eq!(
        registry.reload(&vec![entry("c", &["x"]), entry("a", &["x"]), entry("b", &["x"])], 0),
        Ok(vec![Action::Spawn(2), Action::Spawn(3)])
    );
    assert_eq!(registry.service(2).map(|s| s.name.clone()), Some("c".to_string()));
    assert_eq!(registry.service(3).map(|s| s.name.clone()), Some("b".to_string()));
    assert!(registry.service(1).is_none());
    assert_eq!(registry.next_id(), 4);
    check_invariants(&registry);
}

#[test]
fn reload_lists_what_the_old_services_need_before_the_spawns() {
    let mut registry = two_running();
    let cfg = vec![
        entry("new", &["/bin/new"]),
        entry("b", &["/bin/changed"]),
    ];
    assert_eq!(
        registry.reload(&cfg, 50),
        Ok(vec![
            Action::Terminate(100),
            Action::Terminate(101),
            Action::Spawn(2),
        ])
    );
    assert_eq!(registry.service(0).map(|s| s.pending), Some(PendingAction::Remove));
    assert_eq!(registry.service(1).map(|s| s.pending), Some(PendingAction::Restart));
    assert_eq!(registry.service(2).map(|s| s.name.clone()), Some("new".to_string()));
    check_invariants(&registry);
}

#[test]
fn reload_refuses_an_invalid_configuration_and_changes_nothing() {
    let mut registry = two_running();
    for cfg in [
        vec![entry("a", &["x"]), entry("a", &["x"])],
        vec![entry("", &["x"])],
        vec![entry("c", &[])],
        vec![entry("c", &["x\0"])],
        vec![entry("c\0", &["x"])],
    ] {
        assert_eq!(registry.reload(&cfg, 50), Err(ReloadError::InvalidConfig));
        assert_eq!(state_of(&registry, 0), ServiceState::Running);
        assert_eq!(state_of(&registry, 1), ServiceState::Running);
        assert_eq!(registry.next_id(), 2);
        assert_eq!(registry.snapshot().len(), 2);
    }
    check_invariants(&registry);
}

#[test]
fn reload_refuses_more_services_than_ids_are_left() {
    let mut registry = ServiceRegistry::new();
    assert_eq!(registry.insert_service(record(65_534, "last")), Ok(()));
    assert_eq!(registry.next_id(), 65_535);
    let two = vec![
        entry("last", &["/bin/sleep", "3600"]),
        entry("x", &["x"]),
        entry("y", &["y"]),
    ];
    assert_eq!(registry.reload(&two, 0), Err(ReloadError::IdsExhausted));
    assert_eq!(registry.next_id(), 65_535);
    assert_eq!(registry.snapshot().len(), 1);
    let one = vec![entry("last", &["/bin/sleep", "3600"]), entry("x", &["x"])];
    assert_eq!(registry.reload(&one, 0), Ok(vec![Action::Spawn(65_535)]));
    assert_eq!(registry.next_id(), 65_536);
    assert_eq!(
        registry.service(65_535).map(|s| s.name.clone()),
        Some("x".to_string())
    );
    assert_eq!(registry.reload(&one, 0), Ok(Vec::new()));
    let again = vec![
        entry("last", &["/bin/sleep", "3600"]),
        entry("x", &["x"]),
        entry("z", &["z"]),
    ];
    assert_eq!(registry.reload(&again, 0), Err(ReloadError::IdsExhausted));
    assert_eq!(
        registry.insert_service(record(65_535, "none")),
        Err(RegistryError::DuplicateId)
    );
    assert_eq!(
        registry.insert_service(record(65_536, "none")),
        Err(RegistryError::InvalidService)
    );
    check_invariants(&registry);
}

#[test]
fn the_last_id_of_the_space_can_be_inserted() {
    let mut registry = ServiceRegistry::new();
    assert_eq!(registry.insert_service(record(65_535, "last")), Ok(()));
    assert_eq!(registry.next_id(), 65_536);
    assert_eq!(registry.register_pid(77, 65_535), Ok(()));
    assert_eq!(registry.service_of_pid(77), Some(65_535));
    assert_eq!(registry.stop_all(3), vec![Action::Terminate(77)]);
    assert_eq!(registry.tick(8), vec![Action::Kill(77)]);
    assert_eq!(
        registry.reload(&vec![entry("more", &["x"])], 0),
        Err(ReloadError::IdsExhausted)
    );
    check_invariants(&registry);
}

#[test]
fn a_registry_starts_empty_by_default_and_copies_whole() {
    let empty = ServiceRegistry::default();
    assert_eq!(empty.next_id(), 0);
    assert!(empty.snapshot().is_empty());
    let registry = two_running();
    let mut copy = registry.clone();
    assert_eq!(copy.next_id(), 2);
    assert_eq!(copy.service_of_pid(100), Some(0));
    assert_eq!(copy.service_of_pid(101), Some(1));
    assert_eq!(copy.service(1).map(|s| s.name.clone()), Some("b".to_string()));
    assert_eq!(
        handle_sigchld(&mut copy, 100, ChildExit::Exited(0)),
        ReapOutcome::Stopped(0, StopReason::ExitedSuccess)
    );
    assert_eq!(state_of(&registry, 0), ServiceState::Running);
    assert_eq!(registry.service_of_pid(100), Some(0));
    check_invariants(&registry);
    check_invariants(&copy);
}

#[test]
fn states_are_ordered_as_they_are_declared() {
    let stopped = ServiceState::Stopped(StopReason::Killed(9));
    assert!(ServiceState::Stopped(StopReason::NeverStarted) < stopped);
    assert!(stopped < ServiceState::Running);
    assert!(ServiceState::Running < ServiceState::Stopping(0));
    assert!(ServiceState::Stopping(1) < ServiceState::Stopping(2));
    assert!(StopReason::ExitedError(1) < StopReason::ExitedError(2));
    let mut seen = std::collections::HashSet::new();
    assert!(seen.insert(ServiceState::Running));
    assert!(seen.insert(ServiceState::Stopping(4)));
    assert!(!seen.insert(ServiceState::Running));
}

#[test]
fn invariants_hold_along_a_long_run_of_operations() {
    let mut registry = ServiceRegistry::new();
    let mut seed: u32 = 7;
    let mut next_pid = 10;
    let names = ["a", "b", "c", "d", "e"];
    for step in 0..400u64 {
        seed = seed.wrapping_mul(1_664_525).wrapping_add(1_013_904_223);
        let pick = (seed >> 16) as u64;
        let id = pick % 8;
        match pick % 7 {
            0 => {
                let mut cfg = Vec::new();
                for (k, name) in names.iter().enumerate() {
                    if (pick >> (8 + k)) & 1 == 1 {
                        let arg = if (pick >> (3 + k)) & 1 == 1 { "1" } else { "2" };
                        cfg.push(entry(name, &["/bin/sleep", arg]));
                    }
                }
                let actions = registry.reload(&cfg, step).expect("configuration is valid");
                for action in actions {
                    if let Action::Spawn(id) = action {
                        next_pid += 1;
                        assert_eq!(registry.register_pid(next_pid, id), Ok(()));
                    }
                }
            }
            1 | 2 => {
                let ops = [ControlOp::Start, ControlOp::Stop, ControlOp::Restart];
                let op = ops[(pick % 3) as usize];
                if let Some(Action::Spawn(id)) =
                    registry.apply_control(ControlCommand::new(op, id), step)
                {
                    next_pid += 1;
                    assert_eq!(registry.register_pid(next_pid, id), Ok(()));
                }
            }
            3 | 4 => {
                let pid = 10 + (pick % 40) as i32;
                let exit = if pick % 2 == 0 {
                    ChildExit::Exited((pick % 3) as i32)
                } else {
                    ChildExit::Signaled(1 + (pick % 15) as i32)
                };
                if let ReapOutcome::Restart(id, _) = handle_sigchld(&mut registry, pid, exit) {
                    next_pid += 1;
                    assert_eq!(registry.register_pid(next_pid, id), Ok(()));
                }
            }
            5 => {
                for action in registry.tick(step) {
                    match action {
                        Action::Kill(pid) => assert!(registry.service_of_pid(pid).is_some()),
                        other => panic!("a tick asked for {:?}", other),
                    }
                }
            }
            _ => {
                if pick % 5 == 0 {
                    registry.stop_all(step);
                }
            }
        }
        check_invariants(&registry);
    }
}
