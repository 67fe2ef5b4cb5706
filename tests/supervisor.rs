use servare::config::{JaegerConfig, JobConfig, ProjectId, SessionConfig, TracingTargets};
use servare::run_group::{RunGroupState, TaskState};

#[test]
fn shutdown_moves_every_task_towards_stopped() {
    let mut group = RunGroupState::new();
    let server = group.add();
    let runner = group.add();
    assert!(!group.all_stopped());
    group.broadcast_shutdown();
    group.begin_draining(server);
    group.task_finished(server, None);
    assert!(!group.all_stopped());
    group.task_finished(runner, None);
    assert!(group.all_stopped());
    assert_eq!(group.outcome(), Ok(()));
    let late = group.add();
    assert_eq!(late, 2);
    assert!(!group.all_stopped());
}

#[test]
fn the_first_error_is_surfaced() {
    let mut group = RunGroupState::new();
    let a = group.add();
    let b = group.add();
    group.task_finished(a, Some("bind failed".to_string()));
    group.broadcast_shutdown();
    group.task_finished(b, Some("later".to_string()));
    assert!(group.all_stopped());
    assert_eq!(group.outcome(), Err("bind failed".to_string()));
    let _ = TaskState::Draining;
}

#[test]
fn config_values_are_derived_from_their_fields() {
    let job = JobConfig { run_interval_seconds: 30 };
    assert_eq!(job.run_interval().as_secs(), 30);
    let session = SessionConfig { ttl_seconds: 3600, cleanup_enabled: true, cleanup_interval_seconds: 60 };
    assert_eq!(session.ttl().as_secs(), 3600);
    let jaeger = JaegerConfig { host: "localhost".to_string(), port: 6831 };
    assert_eq!(jaeger.endpoint(), "localhost:6831");
    let port_zero = JaegerConfig { host: "h".to_string(), port: 0 };
    assert_eq!(port_zero.endpoint(), "h:0");
    assert_eq!(JaegerConfig { host: "h".to_string(), port: 10 }.endpoint(), "h:10");
    assert_eq!(JaegerConfig { host: "h".to_string(), port: 65535 }.endpoint(), "h:65535");
    let targets = TracingTargets(vec!["servare=info".to_string(), "sqlx=warn".to_string()]);
    assert_eq!(targets.joined(), "servare=info,sqlx=warn");
    assert_eq!(TracingTargets(vec![]).joined(), "");
    assert_eq!(ProjectId::new("p1".to_string()).as_str(), "p1");
}
