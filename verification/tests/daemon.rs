use gem_endgame::daemon::{
    child_args, launch_step, parse_pid, parse_server_bind, server_status, started_banner, still_running, stop_step,
    LaunchStep, ServerMeta, StopStep, DEFAULT_BIND,
};

#[test]
fn default_bind_is_localhost() {
    assert!(DEFAULT_BIND.starts_with("127.0.0.1"));
    assert_eq!(parse_server_bind(&[]), "127.0.0.1:8787");
}

#[test]
fn binds_and_pids() {
    let args: Vec<String> = ["gem", "--server", "--server-bind", "0.0.0.0:9"].iter().map(|s| s.to_string()).collect();
    assert_eq!(parse_server_bind(&args), "0.0.0.0:9");
    assert_eq!(parse_pid(" 42\n"), Some(42));
    assert_eq!(parse_pid("-0"), None);
    assert_eq!(parse_pid("x"), None);
}

#[test]
fn a_stop_ends_in_a_kill() {
    assert_eq!(stop_step(0, true), StopStep::Wait { notice: false });
    assert_eq!(stop_step(4, true), StopStep::Wait { notice: true });
    assert_eq!(stop_step(4, false), StopStep::Stopped);
    assert_eq!(stop_step(50, true), StopStep::Kill);
    assert_eq!(still_running(4), "[STOP] still running… (2s)");
}

#[test]
fn a_launch_waits_for_the_dashboard() {
    assert_eq!(launch_step(0, true, false, false), LaunchStep::Wait);
    assert_eq!(launch_step(0, true, true, true), LaunchStep::Up);
    assert_eq!(launch_step(3, false, true, true), LaunchStep::Died);
    assert_eq!(launch_step(180, true, true, true), LaunchStep::TimedOut);
}

#[test]
fn the_worker_is_flagged_once() {
    let args = |v: &[&str]| v.iter().map(|s| s.to_string()).collect::<Vec<String>>();
    assert_eq!(child_args(&args(&["gem", "BTC"])), vec!["BTC", "--server-child"]);
    assert_eq!(child_args(&args(&["gem", "--server-child"])), vec!["--server-child"]);
}

#[test]
fn status_lines() {
    assert_eq!(server_status(None, false, None, None), vec!["STATUS: not running (no pid file)"]);
    assert_eq!(server_status(Some(7), false, None, None), vec!["STATUS: not running (stale pid 7 — cleaned up)"]);
    let meta = ServerMeta {
        pid: 7,
        bind: "127.0.0.1:8787".into(),
        asset: "BTC".into(),
        interval: "5m".into(),
        execution_mode: "paper".into(),
        dry_run: false,
        strategy: "j_endgame".into(),
        started_at_ms: 1_782_000_000_000,
        run_log_dir: "logs/x".into(),
    };
    let lines = server_status(Some(7), true, Some(&meta), None);
    assert_eq!(lines[0], "STATUS: RUNNING");
    assert!(lines.iter().any(|l| l == "  started: 2026-06-21 00:00:00 UTC"));
    let banner = started_banner(7, "127.0.0.1:8787", Some(&meta));
    assert!(banner.iter().any(|l| l == "  dashboard: http://127.0.0.1:8787"));
    assert!(banner.iter().any(|l| l == "  mode:      paper (dry_run=false)"));
}
