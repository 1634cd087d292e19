use std::collections::VecDeque;
use std::str::FromStr;

use overseer::config::{
    EnvSetting,
    default_health_grace, default_health_interval, default_retry_count, default_retry_window,
    default_stop_grace, CommandLine, Env, HealthCheck, HttpRelay, Program, Retry,
};
use overseer::endpoints::{lifecycle_label, status_entries, unhealthy_programs};
use overseer::error::{status_line, HealthError, SupervisorError};
use overseer::log_format::{map_level, max_target_width, pad, render_line, render_record};
use overseer::logger::{ChildOutput, Custom, IOType, Level, LoggerActor};
use overseer::proxy::handler::{forwarded_value, keeps_response_header, peer_label, via_value, x_forwarded_for_value};
use overseer::proxy::{ancestors, ProxyConfig, ProxyEntry};
use overseer::supervisor::caretaker::{
    uri_for_check, Caretaker, HealthPlan, HealthState, Lifecycle, RunOutcome, SetHealthState,
};
use overseer::supervisor::futs::{exit_result, judge_exit, wait_abort_step, ExitStatusInfo, RepeatedActFut, WaitAbortResult};
use overseer::supervisor::health::HealthMonitor;
use overseer::supervisor::retry::RetryGuard;
use overseer::time::{Duration, Instant};

fn secs(n: u64) -> Duration {
    Duration::from_secs(n)
}

fn at(n: u64) -> Instant {
    Instant::from_elapsed(secs(n))
}

fn relay(port: u16, path: &str, https: bool, strip_path: bool) -> HttpRelay {
    HttpRelay { port, path: path.to_string(), https, strip_path, health_check: None }
}

fn program(http: Option<HttpRelay>) -> Program {
    Program {
        command: CommandLine::parse("sleep 10").unwrap(),
        env: vec![("A".to_string(), Some(Env::Literal("1".to_string())))],
        http,
        retry: Retry { window: default_retry_window(), count: default_retry_count() },
        grace: default_stop_grace(),
    }
}

#[test]
fn duration_arithmetic() {
    let d = Duration::checked_new(1, 500_000_000).unwrap();
    assert_eq!(d.as_secs(), 1);
    assert_eq!(d.subsec_nanos(), 500_000_000);
    assert_eq!(d.as_nanos(), 1_500_000_000);
    assert_eq!(d.checked_mul(3).unwrap().as_nanos(), 4_500_000_000);
    assert!(Duration::from_secs(u64::MAX).checked_mul(2).is_none());
    assert_eq!(Duration::checked_new(1, 2_500_000_000).unwrap().as_nanos(), 3_500_000_000);
    assert!(Duration::checked_new(u64::MAX, 1_000_000_000).is_none());
    assert!(secs(2).le(&secs(2)));
    assert!(!secs(3).le(&secs(2)));
}

#[test]
fn instant_ordering() {
    assert!(at(1).lt(&at(2)));
    assert!(!at(2).lt(&at(2)));
    assert_eq!(at(5).checked_sub(&secs(2)).unwrap().since_origin().as_secs(), 3);
    assert!(at(1).checked_sub(&secs(2)).is_none());
    let a = Instant::now().expect("clock");
    let b = Instant::now().expect("clock");
    assert!(!b.lt(&a));
}

#[test]
fn config_defaults() {
    assert_eq!(default_stop_grace().as_secs(), 10);
    assert_eq!(default_retry_window().as_secs(), 10);
    assert_eq!(default_retry_count(), usize::MAX);
    assert_eq!(default_health_interval().as_secs(), 5);
    assert_eq!(default_health_grace().as_secs(), 30);
}

#[test]
fn command_line_splits_shell_words() {
    let c = CommandLine::parse("python3 -m 'http.server' \"8 0\" a\\ b").unwrap();
    assert_eq!(c.cmd, "python3");
    assert_eq!(c.args, vec!["-m", "http.server", "8 0", "a b"]);
    let c = CommandLine::from_str("  ls  ").unwrap();
    assert_eq!(c.cmd, "ls");
    assert!(c.args.is_empty());
}

#[test]
fn command_line_without_words_is_refused() {
    assert_eq!(CommandLine::parse("").unwrap_err(), SupervisorError::Command);
    assert_eq!(CommandLine::parse("   \t ").unwrap_err(), SupervisorError::Command);
    assert!("".parse::<CommandLine>().is_err());
}

#[test]
fn supervisor_error_messages() {
    assert_eq!(SupervisorError::Command.message(), "Invalid command Line");
    assert_eq!(SupervisorError::Spawn("No such file".to_string()).message(), "Unable to spawn child - No such file");
    assert_eq!(SupervisorError::AlreadyDied.message(), "Child exited too quickly");
    assert_eq!(SupervisorError::NonZeroExit(3).message(), "Child exited with non-zero exit code - 3");
    assert_eq!(SupervisorError::NonZeroExit(-120).message(), "Child exited with non-zero exit code - -120");
    assert_eq!(SupervisorError::NonZeroExit(i32::MIN).message(), "Child exited with non-zero exit code - -2147483648");
    assert_eq!(SupervisorError::ExitBySignal("SIGTERM".to_string()).message(), "Child terminated by signal - SIGTERM");
}

#[test]
fn health_error_messages() {
    assert_eq!(HealthError::Send("timeout".to_string()).message(), "Unable to send request to upstream - timeout");
    assert_eq!(HealthError::Status(404).message(), "Non-success response status code - 404 Not Found");
    assert_eq!(HealthError::Status(503).message(), "Non-success response status code - 503 Service Unavailable");
    assert_eq!(HealthError::Status(599).message(), "Non-success response status code - 599 <unknown status code>");
}

#[test]
fn custom_records() {
    let c = Custom::new("web".to_string(), "hello".to_string());
    assert_eq!(c.level, Level::Warn);
    assert_eq!(c.name, "web");
    assert_eq!(c.data, "hello");
    let c = Custom::new_with_level(Level::Error, "web".to_string(), "bad".to_string());
    assert_eq!(c.level, Level::Error);
}

#[test]
fn child_output_levels() {
    let out = LoggerActor::record_of(ChildOutput { name: "a".to_string(), ty: IOType::Stdout, data: "x".to_string() });
    assert_eq!(out.level, Level::Info);
    assert_eq!(out.data, "x");
    let err = LoggerActor::record_of(ChildOutput { name: "a".to_string(), ty: IOType::Stderr, data: "y".to_string() });
    assert_eq!(err.level, Level::Warn);
    assert_eq!(err.name, "a");
}

#[test]
fn log_line_layout() {
    assert_eq!(map_level(Level::Error), "ERROR");
    assert_eq!(map_level(Level::Warn), "WARN ");
    assert_eq!(map_level(Level::Info), "INFO ");
    assert_eq!(map_level(Level::Debug), "DEBUG");
    assert_eq!(map_level(Level::Trace), "TRACE");
    assert_eq!(pad("ab", 5), "ab   ");
    assert_eq!(pad("abcdef", 3), "abcdef");
    assert_eq!(pad("é", 3), format!("{: <3}", "é"));
    assert_eq!(max_target_width(3, "abcde"), 5);
    assert_eq!(max_target_width(7, "abcde"), 7);
    assert_eq!(max_target_width(1, "é"), 2);
    assert_eq!(
        render_record("2024-01-01T00:00:00Z", Level::Info, "web", 5, "up"),
        " 2024-01-01T00:00:00Z INFO  web   > up"
    );
}

#[test]
fn ancestors_cut_at_slashes() {
    assert_eq!(ancestors("a/b/c"), vec!["a/b/c", "a/b", "a"]);
    assert_eq!(ancestors("a"), vec!["a"]);
    assert_eq!(ancestors(""), vec![""]);
    assert_eq!(ancestors("a//b"), vec!["a//b", "a/", "a"]);
}

#[test]
fn proxy_entry_from_relay() {
    let e = ProxyEntry::from_relay(&relay(8080, "/api", true, false));
    assert_eq!(e.port, 8080);
    assert!(e.secure);
    assert_eq!(e.prefix_path, "api");
    assert_eq!(ProxyEntry::from_relay(&relay(1, "//api/v1/", false, false)).prefix_path, "api/v1");
    let e = ProxyEntry::from_relay(&relay(8080, "/api", false, true));
    assert_eq!(e.prefix_path, "");
}

#[test]
fn proxy_routes_to_deepest_prefix() {
    let config = ProxyConfig::new(
        &vec![relay(8001, "/a/", false, true), relay(8002, "/a/b", true, true)],
        "0.0.0.0".to_string(),
    );
    assert_eq!(config.interface(), "0.0.0.0");
    let t = config.get("/a/b/c", Some("x=1")).unwrap();
    assert!(t.https);
    assert_eq!(t.authority, "127.0.0.1:8002");
    assert_eq!(t.path_and_query, "//c?x=1");
    let t = config.get("/a/z", None).unwrap();
    assert!(!t.https);
    assert_eq!(t.authority, "127.0.0.1:8001");
    assert_eq!(t.path_and_query, "//z");
    assert!(config.get("/b", None).is_none());
    assert_eq!(config.resolve("/a/b", None), Some((8002, true, "/".to_string())));
}

#[test]
fn proxy_keeps_prefix_path_unless_stripped() {
    let config = ProxyConfig::new(&vec![relay(9000, "/api", false, false)], "127.0.0.1".to_string());
    let t = config.get("/api/users", None).unwrap();
    assert_eq!(t.path_and_query, "/api//users");
    assert_eq!(t.authority, "127.0.0.1:9000");
}

#[test]
fn proxy_later_relay_wins() {
    let config = ProxyConfig::new(
        &vec![relay(1, "svc", false, true), relay(2, "/svc/", false, true)],
        "::1".to_string(),
    );
    assert_eq!(config.lookup("svc").unwrap().port, 2);
    assert!(config.lookup("other").is_none());
}

#[test]
fn proxy_refuses_unroutable_paths() {
    let config = ProxyConfig::new(&vec![relay(9000, "/api", false, true)], "127.0.0.1".to_string());
    assert!(config.get("//api/x", None).is_none());
    assert!(config.resolve("/api/x y", None).is_some());
    assert!(config.get("/api/x y", None).is_none());
}

#[test]
fn retry_guard_limits_events_in_window() {
    let mut g = RetryGuard::new(VecDeque::new(), secs(10), 3);
    assert!(g.mark_at(at(1)));
    assert!(g.mark_at(at(2)));
    assert!(!g.mark_at(at(3)));
    assert_eq!(g.len(), 3);
    assert!(g.mark_at(at(30)));
    assert_eq!(g.len(), 1);
}

#[test]
fn retry_guard_keeps_events_at_window_edge() {
    let mut g = RetryGuard::new(VecDeque::from(vec![at(5), at(10)]), secs(10), 5);
    assert!(g.mark_at(at(15)));
    assert_eq!(g.len(), 3);
    assert!(g.mark_at(at(20)));
    assert_eq!(g.len(), 3);
    assert!(g.mark_at(at(21)));
    assert_eq!(g.len(), 3);
}

#[test]
fn retry_guard_marks_on_clock() {
    let mut g = RetryGuard::new(VecDeque::new(), secs(10), 2);
    assert!(g.mark());
    assert!(!g.mark());
    let mut unlimited = RetryGuard::new(VecDeque::new(), secs(10), usize::MAX);
    assert!(unlimited.mark());
}

#[test]
fn retry_guard_with_zero_limit_refuses() {
    let mut g = RetryGuard::new(VecDeque::new(), secs(10), 0);
    assert!(!g.mark_at(at(0)));
}

#[test]
fn repeated_fut_decisions() {
    let mut r: RepeatedActFut<fn(u32) -> u32, u32, u32> =
        RepeatedActFut::new(|x| x + 1, 7, RetryGuard::new(VecDeque::new(), secs(10), 2));
    assert_eq!(*r.round_mut(), None);
    assert!(r.start_round());
    assert_eq!(*r.round_mut(), Some(8));
    assert_eq!(r.end_round(Some(1)), None);
    assert_eq!(*r.round_mut(), None);
    assert!(r.start_round());
    assert_eq!(*r.round_mut(), Some(2));
    assert_eq!(r.end_round(Some(2)), Some(false));
    assert!(!r.start_round());
    let mut done: RepeatedActFut<fn(u32) -> u32, u32, u32> =
        RepeatedActFut::new(|x| x, 0, RetryGuard::new(VecDeque::new(), secs(10), 2));
    assert!(done.start_round());
    assert_eq!(done.end_round(None), Some(true));
    assert!(!done.start_round());
    let f = *done.factory();
    assert_eq!(f(3), 3);
}

#[test]
fn exit_results() {
    assert_eq!(exit_result(None), Err(SupervisorError::AlreadyDied));
    assert_eq!(exit_result(Some(ExitStatusInfo { success: true, code: Some(0), signal: None })), Ok(()));
    assert_eq!(
        exit_result(Some(ExitStatusInfo { success: false, code: Some(2), signal: None })),
        Err(SupervisorError::NonZeroExit(2))
    );
    assert_eq!(
        exit_result(Some(ExitStatusInfo { success: false, code: None, signal: Some(9) })),
        Err(SupervisorError::ExitBySignal("SIGKILL".to_string()))
    );
    assert_eq!(
        exit_result(Some(ExitStatusInfo { success: false, code: None, signal: Some(200) })),
        Err(SupervisorError::ExitBySignal("UNKNOWN".to_string()))
    );
}

#[test]
fn wait_abort_priorities() {
    let failed = Some(Some(ExitStatusInfo { success: false, code: Some(1), signal: None }));
    assert_eq!(wait_abort_step(true, true, failed), Some(WaitAbortResult::StopSignalReceived));
    assert_eq!(wait_abort_step(false, true, failed), Some(WaitAbortResult::UnhealthySignalReceived));
    assert_eq!(
        wait_abort_step(false, false, failed),
        Some(WaitAbortResult::ExitWithError(SupervisorError::NonZeroExit(1)))
    );
    assert_eq!(
        wait_abort_step(false, false, Some(Some(ExitStatusInfo { success: true, code: Some(0), signal: None }))),
        Some(WaitAbortResult::Exit)
    );
    assert_eq!(wait_abort_step(false, false, None), None);
}

#[test]
fn run_outcomes() {
    assert_eq!(RunOutcome::of_run(Ok(WaitAbortResult::StopSignalReceived)), RunOutcome::Terminated);
    assert_eq!(RunOutcome::of_run(Ok(WaitAbortResult::UnhealthySignalReceived)), RunOutcome::Unhealthy);
    assert_eq!(RunOutcome::of_run(Ok(WaitAbortResult::Exit)), RunOutcome::NormalExit);
    assert_eq!(RunOutcome::of_run(Err(SupervisorError::Command)), RunOutcome::Error(SupervisorError::Command));
}

#[test]
fn caretaker_lifecycle_of_a_run() {
    let mut c = Caretaker::new("web".to_string(), program(None));
    assert_eq!(c.status(), Lifecycle::Starting);
    c.begin_run();
    assert!(matches!(c.child_spawned(), HealthPlan::Unchecked));
    assert_eq!(c.status(), Lifecycle::Starting);
    let mut no_check = Caretaker::new("web".to_string(), program(Some(relay(8080, "/web", false, false))));
    no_check.begin_run();
    assert!(matches!(no_check.child_spawned(), HealthPlan::Unchecked));
    assert_eq!(no_check.status(), Lifecycle::Starting);
    c.set_health_state(SetHealthState(HealthState::Healthy));
    assert_eq!(c.status(), Lifecycle::Running(HealthState::Healthy));
    assert!(c.wait_resolved(&WaitAbortResult::StopSignalReceived));
    assert_eq!(c.status(), Lifecycle::Terminating);
    c.set_health_state(SetHealthState(HealthState::Unhealthy));
    assert_eq!(c.status(), Lifecycle::Terminating);
    c.run_finished();
    assert_eq!(c.status(), Lifecycle::Terminated);
    c.set_health_state(SetHealthState(HealthState::Healthy));
    assert_eq!(c.status(), Lifecycle::Terminated);
}

#[test]
fn caretaker_plans_health_checks() {
    let mut http = relay(8080, "/web", false, false);
    http.health_check = Some(HealthCheck { path: "/healthz".to_string(), interval: secs(5), grace: secs(30) });
    let mut c = Caretaker::new("web".to_string(), program(Some(http)));
    c.begin_run();
    match c.child_spawned() {
        HealthPlan::Checked(cfg) => {
            assert!(!cfg.target.https);
            assert_eq!(cfg.target.authority, "127.0.0.1:8080");
            assert_eq!(cfg.target.path_and_query, "/healthz");
            assert_eq!(cfg.interval.as_secs(), 5);
            assert_eq!(cfg.grace_period.as_secs(), 30);
        }
        _ => panic!("expected a health check"),
    }
    assert_eq!(c.status(), Lifecycle::Running(HealthState::Unknown));
    assert!(!c.wait_resolved(&WaitAbortResult::Exit));
    assert_eq!(c.status(), Lifecycle::Running(HealthState::Unknown));
}

#[test]
fn caretaker_refuses_bad_check_uri() {
    let mut http = relay(8080, "/web", false, false);
    http.health_check = Some(HealthCheck { path: "/health z".to_string(), interval: secs(5), grace: secs(30) });
    let mut c = Caretaker::new("web".to_string(), program(Some(http)));
    assert!(matches!(c.child_spawned(), HealthPlan::InvalidUri));
    assert!(uri_for_check(true, 443, "/ok").is_some());
}

#[test]
fn check_uri_query_position_rule() {
    let mut unchecked = "a".repeat(65535);
    unchecked.push_str("? x");
    assert!(uri_for_check(false, 80, &unchecked).is_some());
    let mut checked = "a".repeat(65534);
    checked.push_str("? x");
    assert!(uri_for_check(false, 80, &checked).is_none());
    let mut fine = "a".repeat(65534);
    fine.push_str("?x");
    assert!(uri_for_check(false, 80, &fine).is_some());
}

#[test]
fn caretaker_round_reports() {
    let c = Caretaker::new("web".to_string(), program(None));
    let (log, more) = c.round_report(&RunOutcome::NormalExit);
    assert_eq!(log.data, "Exits without error.");
    assert_eq!(log.level, Level::Warn);
    assert!(more);
    let (log, more) = c.round_report(&RunOutcome::Terminated);
    assert_eq!(log.data, "Terminated by caretaker.");
    assert!(!more);
    let (log, more) = c.round_report(&RunOutcome::Unhealthy);
    assert_eq!(log.data, "Terminated by caretaker.");
    assert!(more);
    let (log, more) = c.round_report(&RunOutcome::Error(SupervisorError::NonZeroExit(1)));
    assert_eq!(log.data, "Exits with error: Child exited with non-zero exit code - 1.");
    assert_eq!(log.name, "web");
    assert!(more);
}

#[test]
fn caretaker_fails_when_retries_run_out() {
    let mut c = Caretaker::new("web".to_string(), program(None));
    c.run_finished();
    assert!(c.daemon_finished(true).is_none());
    assert_eq!(c.status(), Lifecycle::Terminated);
    let log = c.daemon_finished(false).unwrap();
    assert_eq!(c.status(), Lifecycle::Failed);
    assert_eq!(log.level, Level::Error);
    assert_eq!(log.data, "Retry limits exceeded, giving up");
    c.set_health_state(SetHealthState(HealthState::Healthy));
    assert_eq!(c.status(), Lifecycle::Failed);
}

#[test]
fn health_checks_give_up_after_grace() {
    assert!(HealthMonitor::check_response(200).is_ok());
    assert!(HealthMonitor::check_response(299).is_ok());
    assert_eq!(HealthMonitor::check_response(503), Err(HealthError::Status(503)));
    assert_eq!(HealthMonitor::check_response(199), Err(HealthError::Status(199)));
    let mut m = HealthMonitor::new("web".to_string(), secs(5), secs(10));
    let v = m.record(Err(HealthError::Status(503)));
    assert_eq!(v.report, HealthState::Unhealthy);
    assert!(!v.stop);
    assert_eq!(v.log.unwrap().data, "Health check failed (1): Non-success response status code - 503 Service Unavailable");
    let v = m.record(Ok(()));
    assert_eq!(v.report, HealthState::Healthy);
    assert!(v.log.is_none());
    assert!(!m.record(Err(HealthError::Send("refused".to_string()))).stop);
    assert!(m.can_record_failure());
    let v = m.record(Err(HealthError::Send("refused".to_string())));
    assert!(v.stop);
    assert_eq!(v.log.unwrap().data, "Health check failed (2): Unable to send request to upstream - refused");
    assert!(!m.can_record_failure());
}

#[test]
fn health_checks_with_zero_grace_give_up_at_once() {
    let mut m = HealthMonitor::new("web".to_string(), secs(5), secs(0));
    assert!(m.record(Err(HealthError::Status(500))).stop);
}

#[test]
fn lifecycle_labels_read_as_debug() {
    for l in [
        Lifecycle::Starting,
        Lifecycle::Running(HealthState::Healthy),
        Lifecycle::Running(HealthState::Unhealthy),
        Lifecycle::Running(HealthState::Unknown),
        Lifecycle::Terminating,
        Lifecycle::Terminated,
        Lifecycle::Failed,
    ] {
        assert_eq!(lifecycle_label(l), format!("{:?}", l));
    }
}

#[test]
fn status_and_health_answers() {
    let statuses = vec![
        ("a".to_string(), Lifecycle::Running(HealthState::Healthy)),
        ("b".to_string(), Lifecycle::Starting),
        ("c".to_string(), Lifecycle::Running(HealthState::Unknown)),
    ];
    assert_eq!(
        status_entries(&statuses),
        vec![
            ("a".to_string(), "Running(Healthy)".to_string()),
            ("b".to_string(), "Starting".to_string()),
            ("c".to_string(), "Running(Unknown)".to_string()),
        ]
    );
    assert_eq!(unhealthy_programs(&statuses), vec!["b".to_string(), "c".to_string()]);
    assert!(unhealthy_programs(&vec![("a".to_string(), Lifecycle::Running(HealthState::Healthy))]).is_empty());
}

#[test]
fn forwarded_header_elements() {
    assert_eq!(
        forwarded_value("10.0.0.1", "0.0.0.0", "", "example.com:8080", "http"),
        "for=10.0.0.1;by=0.0.0.0;host=\"example.com:8080\";proto=http"
    );
    assert_eq!(
        forwarded_value("::1", "127.0.0.1", "for=1.2.3.4", "example.com", "https"),
        "for=1.2.3.4, for=\"[::1]\";by=127.0.0.1;host=example.com;proto=https"
    );
    assert_eq!(
        forwarded_value("unknown", "0.0.0.0", "", "a\"b\\c", "http"),
        "for=unknown;by=0.0.0.0;host=\"a\\\"b\\\\c\";proto=http"
    );
    assert_eq!(forwarded_value("1.1.1.1", "0.0.0.0", "", "", "http"), "for=1.1.1.1;by=0.0.0.0;host=\"\";proto=http");
}

#[test]
fn via_and_forwarded_for_headers() {
    assert_eq!(via_value(None, "HTTP/1.1"), "HTTP/1.1 blahaj");
    assert_eq!(via_value(Some("1.0 fred"), "HTTP/2.0"), "1.0 fred, HTTP/2.0 blahaj");
    assert_eq!(via_value(Some(""), "HTTP/1.1"), ", HTTP/1.1 blahaj");
    assert_eq!(x_forwarded_for_value(None, "2.2.2.2"), "2.2.2.2");
    assert_eq!(x_forwarded_for_value(Some("1.1.1.1"), "2.2.2.2"), "1.1.1.1, 2.2.2.2");
    assert_eq!(peer_label(None), "unknown");
    assert_eq!(peer_label(Some("10.1.2.3")), "10.1.2.3");
}

#[test]
fn hop_by_hop_headers_are_dropped() {
    assert!(!keeps_response_header("connection"));
    assert!(!keeps_response_header("Transfer-Encoding"));
    assert!(keeps_response_header("content-type"));
    assert!(keeps_response_header("connections"));
}

#[test]
fn instants_from_clock_readings() {
    assert_eq!(Instant::from_reading(3, 5).unwrap().since_origin().as_nanos(), 3_000_000_005);
    assert!(Instant::from_reading(-1, 0).is_none());
    assert!(Instant::from_reading(1, -1).is_none());
    assert!(Instant::from_reading(1, 1_000_000_000).is_none());
    assert_eq!(Instant::from_reading(0, 999_999_999).unwrap().since_origin().as_nanos(), 999_999_999);
}

#[test]
fn retry_guard_evicts_every_event_before_the_window() {
    let mut g = RetryGuard::new(VecDeque::from(vec![at(20), at(5)]), secs(10), 5);
    assert!(g.mark_at(at(21)));
    assert_eq!(g.len(), 2);
    assert!(g.mark_at(at(25)));
    assert_eq!(g.len(), 3);
}

#[test]
fn retry_guard_window_must_fit_the_clock() {
    assert!(RetryGuard::new(VecDeque::new(), secs(10), 1).fits_clock());
    assert!(!RetryGuard::new(VecDeque::new(), Duration::from_secs(u64::MAX), 1).fits_clock());
}

#[test]
fn command_line_from_words() {
    let c = CommandLine::from_words(vec!["a".to_string(), "b c".to_string()]).unwrap();
    assert_eq!(c.cmd, "a");
    assert_eq!(c.args, vec!["b c"]);
    assert_eq!(CommandLine::from_words(vec![]).unwrap_err(), SupervisorError::Command);
}

#[test]
fn status_lines() {
    assert_eq!(status_line(404, Some("Not Found")), "404 Not Found");
    assert_eq!(status_line(799, None), "799 <unknown status code>");
}

#[test]
fn judged_exits_with_given_names() {
    let killed = Some(ExitStatusInfo { success: false, code: None, signal: Some(15) });
    assert_eq!(judge_exit(killed, Some("SIGTERM")), Err(SupervisorError::ExitBySignal("SIGTERM".to_string())));
    assert_eq!(judge_exit(killed, None), Err(SupervisorError::ExitBySignal("UNKNOWN".to_string())));
    assert_eq!(judge_exit(None, None), Err(SupervisorError::AlreadyDied));
    assert_eq!(
        judge_exit(Some(ExitStatusInfo { success: false, code: Some(4), signal: None }), Some("X")),
        Err(SupervisorError::NonZeroExit(4))
    );
}

#[test]
fn stop_wins_over_an_incomplete_exit_status() {
    let odd = Some(Some(ExitStatusInfo { success: false, code: None, signal: None }));
    assert_eq!(wait_abort_step(true, false, odd), Some(WaitAbortResult::StopSignalReceived));
    assert_eq!(wait_abort_step(false, true, odd), Some(WaitAbortResult::UnhealthySignalReceived));
}

#[test]
fn environment_plans() {
    let mut p = program(None);
    p.env = vec![
        ("A".to_string(), Some(Env::Literal("1".to_string()))),
        ("B".to_string(), None),
        ("C".to_string(), Some(Env::Inherit("HOME".to_string()))),
    ];
    assert!(p.has_distinct_env_names());
    let plan = p
        .env_plan(&vec![Err("unused".to_string()), Err("unused".to_string()), Ok("/root".to_string())])
        .unwrap();
    assert_eq!(
        plan,
        vec![
            ("A".to_string(), EnvSetting::Value("1".to_string())),
            ("B".to_string(), EnvSetting::Remove),
            ("C".to_string(), EnvSetting::Value("/root".to_string())),
        ]
    );
    assert_eq!(
        p.env_plan(&vec![Ok(String::new()), Ok(String::new()), Err("environment variable not found".to_string())]),
        Err(SupervisorError::Spawn("environment variable not found".to_string()))
    );
    p.env.push(("A".to_string(), None));
    assert!(!p.has_distinct_env_names());
}

#[test]
fn log_lines_from_parts() {
    assert_eq!(render_line("t", "L", "x", "m"), " t L x > m");
}

#[test]
fn path_and_query_character_rules() {
    let config = ProxyConfig::new(&vec![relay(9000, "/api", false, true)], "127.0.0.1".to_string());
    assert!(config.get("/api/x", Some("a=1&b={c}")).is_some());
    assert!(config.get("/api/x", Some("b=\"c\"")).is_none());
    assert!(config.get("/api/{\"x\"}", None).is_some());
    assert!(config.get("/api/caf\u{e9}", None).is_none());
    assert!(config.get("/api/a#frag ment", None).is_some());
    assert!(config.get("/api/a", Some("x y")).is_none());
    assert!(config.get("/api/a", Some("x#y z")).is_some());
}

#[test]
fn retry_guard_forgets_events_that_left_the_window() {
    let mut g = RetryGuard::new(VecDeque::new(), secs(10), 3);
    assert!(g.mark_at(at(10)));
    assert!(g.mark_at(at(11)));
    assert!(!g.mark_at(at(12)));
    assert!(g.mark_at(at(23)));
    assert_eq!(g.len(), 1);
}
