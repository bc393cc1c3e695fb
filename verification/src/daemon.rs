//! Lifecycle of the background server: its files, `--stop` and `--status`.
use crate::number_format::{dec_text, fixed, fixed_of, int_text, int_text_of, uint_text};
use crate::num::Num;
use crate::number_text::{int_of_text, parse_int};
use crate::text::{
    bool_str, bool_text, joined, no_lines, push_line, same_text, texts, trim_text, trimmed,
};
use crate::time::{utc_text, utc_text_of};
use vstd::prelude::*;
use vstd::string::*;

verus! {

pub const PID_FILE: &'static str = "logs/gem_rust_server.pid";

pub const META_FILE: &'static str = "logs/gem_rust_server.json";

pub const SERVER_LOG: &'static str = "logs/gem_rust_server.log";

pub const CHILD_FLAG: &'static str = "--server-child";

pub const DEFAULT_BIND: &'static str = "127.0.0.1:8787";

/// Where the server keeps its process id.
pub fn pid_path() -> (r: &'static str)
    ensures
        r@ == PID_FILE@,
{
    PID_FILE
}

/// Where the server keeps its description.
pub fn meta_path() -> (r: &'static str)
    ensures
        r@ == META_FILE@,
{
    META_FILE
}

#[derive(Clone, Debug)]
pub struct ServerMeta {
    pub pid: u32,
    pub bind: String,
    pub asset: String,
    pub interval: String,
    pub execution_mode: String,
    pub dry_run: bool,
    pub strategy: String,
    pub started_at_ms: i64,
    pub run_log_dir: String,
}

/// What the running server answers about itself.
#[derive(Clone, Copy, Debug)]
pub struct HealthResponse {
    pub uptime_ms: i64,
    pub shutdown_pending: bool,
    pub updated_at_ms: Option<i64>,
}

/// The address that follows the first `--server-bind` with anything behind it.
pub open spec fn bind_of(args: Seq<String>) -> Seq<char>
    decreases args.len(),
{
    if args.len() < 2 {
        DEFAULT_BIND@
    } else if args[0]@ == "--server-bind"@ {
        args[1]@
    } else {
        bind_of(args.drop_first())
    }
}

pub fn parse_server_bind(args: &[String]) -> (r: String)
    ensures
        r@ == bind_of(args@),
{
    let mut i: usize = 0;
    assert(args@.skip(0) == args@);
    while i < args.len()
        invariant
            i <= args.len(),
            bind_of(args@) == bind_of(args@.skip(i as int)),
        decreases args.len() - i,
    {
        assert(args@.skip(i as int)[0] == args@[i as int]);
        if same_text(args[i].as_str(), "--server-bind") && i + 1 < args.len() {
            assert(args@.skip(i as int)[1] == args@[i + 1]);
            return args[i + 1].as_str().to_owned();
        }
        assert(args@.skip(i as int).drop_first() == args@.skip(i + 1));
        i = i + 1;
    }
    DEFAULT_BIND.to_owned()
}

/// The process id in the pid file's text.
pub open spec fn pid_of(raw: Seq<char>) -> Option<u32> {
    let t = trimmed(raw);
    match int_of_text(t) {
        Some(x) => if 0 <= x <= u32::MAX && (t.len() == 0 || t[0] != '-') {
            Some(x as u32)
        } else {
            None
        },
        None => None,
    }
}

pub fn parse_pid(raw: &str) -> (r: Option<u32>)
    ensures
        r == pid_of(raw@),
{
    let t: String = trim_text(raw);
    match parse_int(t.as_str()) {
        Some(x) => {
            if 0 <= x && x <= u32::MAX as i64 && (t.as_str().unicode_len() == 0 || t.as_str().get_char(
                0,
            ) != '-') {
                Some(x as u32)
            } else {
                None
            }
        },
        None => None,
    }
}

/// Whether a server with process id `own` must not start: another process that is alive
/// holds the pid file.
pub open spec fn spec_start_blocked(holder: Option<u32>, alive: bool, own: u32) -> bool {
    holder is Some && alive && holder != Some(own)
}

#[verifier::when_used_as_spec(spec_start_blocked)]
pub fn start_blocked(holder: Option<u32>, alive: bool, own: u32) -> (r: bool)
    ensures
        r == spec_start_blocked(holder, alive, own),
{
    match holder {
        Some(pid) => alive && pid != own,
        None => false,
    }
}

pub open spec fn running_notice(pid: u32) -> Seq<char> {
    "server already running (pid "@ + dec_text(pid as int)
        + "). Status: cargo run -- --server --status | Stop:   cargo run -- --server --stop"@
}

/// The refusal where a server is running already.
pub fn already_running(pid: u32) -> (r: String)
    ensures
        r@ == running_notice(pid),
{
    let mut out: String = String::from_str("server already running (pid ");
    out.append(uint_text(pid as u64).as_str());
    out.append(
        "). Status: cargo run -- --server --status | Stop:   cargo run -- --server --stop",
    );
    out
}

/// A time stamp as date and time, or as its number where it has no date.
pub open spec fn stamp_text(ms: i64) -> Seq<char> {
    match utc_text_of(ms) {
        Some(t) => t,
        None => int_text_of(ms as int),
    }
}

pub fn format_ts(ms: i64) -> (r: String)
    ensures
        r@ == stamp_text(ms),
{
    or_number(utc_text(ms), ms)
}

/// A date text, or the number where there is none.
pub fn or_number(date: Option<String>, ms: i64) -> (r: String)
    ensures
        r@ == match date {
            Some(t) => t@,
            None => int_text_of(ms as int),
        },
{
    match date {
        Some(t) => t,
        None => int_text(ms),
    }
}

/// What to do about a server that should stop.
#[derive(Clone, Copy, Debug, PartialEq, Eq, Structural)]
pub enum StopStep {
    /// It is gone: remove its files and report the stop.
    Stopped,
    /// Wait half a second; `notice` tells whether to report that it still runs.
    Wait { notice: bool },
    /// The grace time is over: kill it and remove its files.
    Kill,
}

/// The step at half second `i` of the grace time: up to fifty of them, with a notice
/// every two seconds.
pub open spec fn spec_stop_step(i: u32, alive: bool) -> StopStep {
    if i >= 50 {
        StopStep::Kill
    } else if !alive {
        StopStep::Stopped
    } else {
        StopStep::Wait { notice: i > 0 && i % 4 == 0 }
    }
}

#[verifier::when_used_as_spec(spec_stop_step)]
pub fn stop_step(i: u32, alive: bool) -> (r: StopStep)
    ensures
        r == spec_stop_step(i, alive),
{
    if i >= 50 {
        StopStep::Kill
    } else if !alive {
        StopStep::Stopped
    } else {
        StopStep::Wait { notice: i > 0 && i % 4 == 0 }
    }
}

pub open spec fn still_running_notice(i: u32) -> Seq<char> {
    "[STOP] still running… ("@ + fixed_of(Num::uint(i as u64) * Num::ratio(5, 10), 0) + "s)"@
}

pub fn still_running(i: u32) -> (r: String)
    ensures
        r@ == still_running_notice(i),
{
    let mut out: String = String::from_str("[STOP] still running… (");
    out.append(fixed(Num::uint(i as u64) * Num::ratio(5, 10), 0).as_str());
    out.append("s)");
    out
}

/// What to do about a server that is starting up.
#[derive(Clone, Copy, Debug, PartialEq, Eq, Structural)]
pub enum LaunchStep {
    /// It ended while starting.
    Died,
    /// It is up.
    Up,
    /// Wait half a second.
    Wait,
    /// It took too long.
    TimedOut,
}

/// The step at half second `i` of a start: up when the pid file names the worker and the
/// dashboard answers, given 180 tries.
pub open spec fn spec_launch_step(i: u32, alive: bool, registered: bool, healthy: bool) -> LaunchStep {
    if i >= 180 {
        LaunchStep::TimedOut
    } else if !alive {
        LaunchStep::Died
    } else if registered && healthy {
        LaunchStep::Up
    } else {
        LaunchStep::Wait
    }
}

#[verifier::when_used_as_spec(spec_launch_step)]
pub fn launch_step(i: u32, alive: bool, registered: bool, healthy: bool) -> (r: LaunchStep)
    ensures
        r == spec_launch_step(i, alive, registered, healthy),
{
    if i >= 180 {
        LaunchStep::TimedOut
    } else if !alive {
        LaunchStep::Died
    } else if registered && healthy {
        LaunchStep::Up
    } else {
        LaunchStep::Wait
    }
}

/// Whether a server that should stop gives way in the end: after the grace time the step
/// is a kill, whatever the process does.
pub proof fn law_stop_ends(i: u32, alive: bool)
    ensures
        i >= 50 ==> stop_step(i, alive) == StopStep::Kill,
        i < 50 && !alive ==> stop_step(i, alive) == StopStep::Stopped,
        stop_step(i, alive) is Wait ==> i < 50 && alive,
{
}

/// The arguments of the background worker: those behind the program's name, and the
/// worker's flag once.
pub open spec fn worker_args(args: Seq<String>) -> Seq<Seq<char>> {
    let given = args.skip(1).map_values(|s: String| s@);
    if args.len() == 0 {
        seq![CHILD_FLAG@]
    } else if given.contains(CHILD_FLAG@) {
        given
    } else {
        given.push(CHILD_FLAG@)
    }
}

pub fn child_args(args: &[String]) -> (r: Vec<String>)
    ensures
        r@.map_values(|s: String| s@) == worker_args(args@),
{
    let mut out: Vec<String> = Vec::new();
    let mut has_child: bool = false;
    let mut i: usize = 1;
    let ghost given = args@.skip(1).map_values(|s: String| s@);
    if args.len() == 0 {
        out.push(CHILD_FLAG.to_owned());
        assert(out@.map_values(|s: String| s@) =~= seq![CHILD_FLAG@]);
        return out;
    }
    assert(out@.map_values(|s: String| s@) =~= given.take(0));
    while i < args.len()
        invariant
            1 <= i <= args.len(),
            given == args@.skip(1).map_values(|s: String| s@),
            out@.map_values(|s: String| s@) == given.take(i - 1),
            has_child == given.take(i - 1).contains(CHILD_FLAG@),
        decreases args.len() - i,
    {
        let arg: &str = args[i].as_str();
        let ghost before = out@;
        let ghost seen = given.take(i - 1);
        assert(given[i - 1] == arg@);
        if same_text(arg, CHILD_FLAG) {
            has_child = true;
        }
        out.push(arg.to_owned());
        proof {
            assert(given.take(i as int) =~= seen.push(arg@));
            assert(out@.map_values(|s: String| s@) =~= before.map_values(|s: String| s@).push(arg@));
            assert(seen.push(arg@).contains(CHILD_FLAG@) == (seen.contains(CHILD_FLAG@) || arg@
                == CHILD_FLAG@)) by {
                let t = seen.push(arg@);
                if seen.contains(CHILD_FLAG@) {
                    let k = choose|k: int| 0 <= k < seen.len() && seen[k] == CHILD_FLAG@;
                    assert(t[k] == CHILD_FLAG@);
                }
                if arg@ == CHILD_FLAG@ {
                    assert(t[seen.len() as int] == CHILD_FLAG@);
                }
                if t.contains(CHILD_FLAG@) {
                    let k = choose|k: int| 0 <= k < t.len() && t[k] == CHILD_FLAG@;
                    if k < seen.len() {
                        assert(seen[k] == CHILD_FLAG@);
                    }
                }
            }
        }
        i = i + 1;
    }
    assert(given.take(given.len() as int) =~= given);
    if !has_child {
        let ghost before = out@;
        out.push(CHILD_FLAG.to_owned());
        assert(out@.map_values(|s: String| s@) =~= before.map_values(|s: String| s@).push(
            CHILD_FLAG@,
        ));
    }
    out
}

/// The worker's flag is among its arguments, whatever was given.
pub proof fn law_worker_is_flagged(args: Seq<String>)
    ensures
        worker_args(args).contains(CHILD_FLAG@),
{
    let w = worker_args(args);
    let given = args.skip(1).map_values(|s: String| s@);
    if args.len() == 0 {
        assert(w[0] == CHILD_FLAG@);
    } else if !given.contains(CHILD_FLAG@) {
        assert(w[given.len() as int] == CHILD_FLAG@);
    }
}

/// The lines about the server's dashboard: its uptime, a pending shutdown and the last
/// snapshot, or that it does not answer.
pub open spec fn health_lines(bind: Seq<char>, health: Option<HealthResponse>) -> Seq<Seq<char>> {
    match health {
        Some(h) => {
            let a = seq!["  uptime:  "@ + int_text_of(h.uptime_ms as int) + " ms"@];
            let b = if h.shutdown_pending {
                a.push("  note:    SHUTDOWN PENDING (finishing open windows)"@)
            } else {
                a
            };
            match h.updated_at_ms {
                Some(t) => b.push("  snapshot: "@ + stamp_text(t)),
                None => b,
            }
        },
        None => seq!["  http:    dashboard not responding on "@ + bind],
    }
}

/// The lines about a running server's description.
pub open spec fn meta_lines(m: ServerMeta) -> Seq<Seq<char>> {
    seq![
        "  asset:   "@ + m.asset@ + " "@ + m.interval@,
        "  mode:    "@ + m.execution_mode@ + " dry_run="@ + bool_text(m.dry_run),
        "  strategy: "@ + m.strategy@,
        "  bind:    http://"@ + m.bind@,
        "  started: "@ + stamp_text(m.started_at_ms),
        "  logs:    "@ + m.run_log_dir@,
    ]
}

/// The lines of `--status`.
pub open spec fn status_of(
    pid: Option<u32>,
    alive: bool,
    meta: Option<ServerMeta>,
    health: Option<HealthResponse>,
) -> Seq<Seq<char>> {
    match pid {
        None => seq!["STATUS: not running (no pid file)"@],
        Some(p) => if !alive {
            seq!["STATUS: not running (stale pid "@ + dec_text(p as int) + " — cleaned up)"@]
        } else {
            let head = seq!["STATUS: RUNNING"@, "  pid:     "@ + dec_text(p as int)];
            match meta {
                Some(m) => head + meta_lines(m) + health_lines(m.bind@, health),
                None => head.push(
                    "  (no meta file — pid "@ + dec_text(p as int) + " is alive)"@,
                ),
            }
        },
    }
}

fn push_health(out: &mut Vec<String>, bind: &str, health: Option<HealthResponse>)
    ensures
        texts(final(out)@) == texts(old(out)@) + health_lines(bind@, health),
{
    let ghost base = texts(out@);
    match health {
        Some(h) => {
            let mut a: String = String::from_str("  uptime:  ");
            a.append(int_text(h.uptime_ms).as_str());
            a.append(" ms");
            push_line(out, a);
            if h.shutdown_pending {
                push_line(
                    out,
                    String::from_str("  note:    SHUTDOWN PENDING (finishing open windows)"),
                );
            }
            match h.updated_at_ms {
                Some(t) => {
                    push_line(out, joined("  snapshot: ", format_ts(t).as_str()));
                },
                None => {},
            }
        },
        None => {
            push_line(out, joined("  http:    dashboard not responding on ", bind));
        },
    }
    assert(texts(out@) =~= base + health_lines(bind@, health));
}

fn push_meta(out: &mut Vec<String>, m: &ServerMeta)
    ensures
        texts(final(out)@) == texts(old(out)@) + meta_lines(*m),
{
    let ghost base = texts(out@);
    let mut a: String = String::from_str("  asset:   ");
    a.append(m.asset.as_str());
    a.append(" ");
    a.append(m.interval.as_str());
    push_line(out, a);
    let mut b: String = String::from_str("  mode:    ");
    b.append(m.execution_mode.as_str());
    b.append(" dry_run=");
    b.append(bool_str(m.dry_run));
    push_line(out, b);
    push_line(out, joined("  strategy: ", m.strategy.as_str()));
    push_line(out, joined("  bind:    http://", m.bind.as_str()));
    push_line(out, joined("  started: ", format_ts(m.started_at_ms).as_str()));
    push_line(out, joined("  logs:    ", m.run_log_dir.as_str()));
    assert(texts(out@) =~= base + meta_lines(*m));
}

/// The lines of `--status`, given the pid file, whether its process is alive, the
/// server's description and what its dashboard answered.
pub fn server_status(
    pid: Option<u32>,
    alive: bool,
    meta: Option<&ServerMeta>,
    health: Option<HealthResponse>,
) -> (r: Vec<String>)
    ensures
        texts(r@) == status_of(
            pid,
            alive,
            match meta {
                Some(m) => Some(*m),
                None => None,
            },
            health,
        ),
{
    let mut out: Vec<String> = no_lines();
    let p: u32 = match pid {
        Some(p) => p,
        None => {
            push_line(&mut out, String::from_str("STATUS: not running (no pid file)"));
            assert(texts(out@) =~= seq!["STATUS: not running (no pid file)"@]);
            return out;
        },
    };
    if !alive {
        let mut a: String = String::from_str("STATUS: not running (stale pid ");
        a.append(uint_text(p as u64).as_str());
        a.append(" — cleaned up)");
        push_line(&mut out, a);
        assert(texts(out@) =~= seq![
            "STATUS: not running (stale pid "@ + dec_text(p as int) + " — cleaned up)"@,
        ]);
        return out;
    }
    push_line(&mut out, String::from_str("STATUS: RUNNING"));
    push_line(&mut out, joined("  pid:     ", uint_text(p as u64).as_str()));
    let ghost head = seq!["STATUS: RUNNING"@, "  pid:     "@ + dec_text(p as int)];
    assert(texts(out@) =~= head);
    match meta {
        Some(m) => {
            push_meta(&mut out, m);
            push_health(&mut out, m.bind.as_str(), health);
        },
        None => {
            let mut a: String = String::from_str("  (no meta file — pid ");
            a.append(uint_text(p as u64).as_str());
            a.append(" is alive)");
            push_line(&mut out, a);
        },
    }
    out
}

/// The lines that tell of a started server.
pub open spec fn banner_of(pid: u32, bind: Seq<char>, meta: Option<ServerMeta>) -> Seq<Seq<char>> {
    let rule = "════════════════════════════════════════════════════════════"@;
    let head = seq![
        ""@,
        rule,
        "  GEM bot running in BACKGROUND"@,
        rule,
        "  pid:       "@ + dec_text(pid as int),
    ];
    let about = match meta {
        Some(m) => seq![
            "  asset:     "@ + m.asset@ + " "@ + m.interval@,
            "  mode:      "@ + m.execution_mode@ + " (dry_run="@ + bool_text(m.dry_run) + ")"@,
            "  run logs:  "@ + m.run_log_dir@,
        ],
        None => Seq::<Seq<char>>::empty(),
    };
    head + about + seq![
        "  dashboard: http://"@ + bind,
        "  stdout:    "@ + SERVER_LOG@,
        ""@,
        "  From laptop:  ssh -L 8787:127.0.0.1:8787 user@your-vps"@,
        "  Then open:    http://127.0.0.1:8787"@,
        ""@,
        "  status:  cargo run -- --server --status"@,
        "  stop:    cargo run -- --server --stop"@,
        "  kill:    cargo run -- --server --stop --force"@,
        ""@,
        "  Safe to disconnect SSH — bot keeps running."@,
        rule,
    ]
}

pub fn started_banner(pid: u32, bind: &str, meta: Option<&ServerMeta>) -> (r: Vec<String>)
    ensures
        texts(r@) == banner_of(
            pid,
            bind@,
            match meta {
                Some(m) => Some(*m),
                None => None,
            },
        ),
{
    let rule: &str = "════════════════════════════════════════════════════════════";
    let mut out: Vec<String> = no_lines();
    push_line(&mut out, String::from_str(""));
    push_line(&mut out, String::from_str(rule));
    push_line(&mut out, String::from_str("  GEM bot running in BACKGROUND"));
    push_line(&mut out, String::from_str(rule));
    push_line(&mut out, joined("  pid:       ", uint_text(pid as u64).as_str()));
    let ghost head = texts(out@);
    match meta {
        Some(m) => {
            let mut a: String = String::from_str("  asset:     ");
            a.append(m.asset.as_str());
            a.append(" ");
            a.append(m.interval.as_str());
            push_line(&mut out, a);
            let mut b: String = String::from_str("  mode:      ");
            b.append(m.execution_mode.as_str());
            b.append(" (dry_run=");
            b.append(bool_str(m.dry_run));
            b.append(")");
            push_line(&mut out, b);
            push_line(&mut out, joined("  run logs:  ", m.run_log_dir.as_str()));
        },
        None => {},
    }
    push_line(&mut out, joined("  dashboard: http://", bind));
    push_line(&mut out, joined("  stdout:    ", SERVER_LOG));
    push_line(&mut out, String::from_str(""));
    push_line(
        &mut out,
        String::from_str("  From laptop:  ssh -L 8787:127.0.0.1:8787 user@your-vps"),
    );
    push_line(&mut out, String::from_str("  Then open:    http://127.0.0.1:8787"));
    push_line(&mut out, String::from_str(""));
    push_line(&mut out, String::from_str("  status:  cargo run -- --server --status"));
    push_line(&mut out, String::from_str("  stop:    cargo run -- --server --stop"));
    push_line(&mut out, String::from_str("  kill:    cargo run -- --server --stop --force"));
    push_line(&mut out, String::from_str(""));
    push_line(&mut out, String::from_str("  Safe to disconnect SSH — bot keeps running."));
    push_line(&mut out, String::from_str(rule));
    proof {
        let want = banner_of(
            pid,
            bind@,
            match meta {
                Some(m) => Some(*m),
                None => None,
            },
        );
        assert(texts(out@) =~= want);
    }
    out
}

} // verus!
