use gem_endgame::dashboard::{execution_mode_label, DashboardSnapshot};
use gem_endgame::config::ExecutionMode;
use gem_endgame::display::{format_countdown, format_runtime, format_timestamp, format_utc, pad_right, paint, visible_len};
use gem_endgame::json::Json;
use gem_endgame::maintenance::{paint_maintenance, MaintenanceStatus};
use gem_endgame::text::{contains, fill, join_texts, replace_char, split_text, trim_text};

fn s(t: &str) -> Json {
    Json::Str(t.into())
}

fn object(entries: Vec<(&str, Json)>) -> Json {
    Json::Object(entries.into_iter().map(|(k, v)| (k.to_string(), v)).collect())
}

fn summary(page: &str, incidents: usize, maintenances: Vec<&str>) -> Json {
    object(vec![
        ("page", object(vec![("status", s(page))])),
        ("activeIncidents", Json::Array((0..incidents).map(|_| Json::Null).collect())),
        (
            "activeMaintenances",
            Json::Array(maintenances.into_iter().map(|m| object(vec![("status", s(m))])).collect()),
        ),
    ])
}

#[test]
fn templates_take_their_values_in_order() {
    assert_eq!(fill("a {} b {}!", &["1", "{}"]), "a 1 b {}!");
    assert_eq!(fill("{}{} {}", &["x", "y"]), "xy {}");
    assert_eq!(fill("{ }", &["x"]), "{ }");
}

#[test]
fn small_texts() {
    assert_eq!(join_texts(&["a".into(), "b".into(), "c".into()], " | "), "a | b | c");
    assert_eq!(join_texts(&[], ", "), "");
    assert_eq!(split_text("a,b,,c", ','), vec!["a", "b", "", "c"]);
    assert_eq!(replace_char("a_b_c", '_', ' '), "a b c");
    assert_eq!(trim_text(" \t x y \n"), "x y");
    assert!(contains("weak_salvage_otm", "salvage"));
    assert!(!contains("salv", "salvage"));
}

#[test]
fn paint_takes_no_place() {
    let p = paint("LIVE", "green");
    assert_eq!(p, "\x1b[38;5;114mLIVE\x1b[0m");
    assert_eq!(visible_len(&p), 4);
    assert_eq!(paint("x", "no such tone"), "x\x1b[0m");
    for tone in ["bold", "dim", "green", "red", "yellow", "cyan", "magenta"] {
        assert_eq!(visible_len(&paint("abc", tone)), 3);
    }
}

#[test]
fn padding_counts_what_is_visible() {
    let p = pad_right(&paint("ab", "red"), 5);
    assert_eq!(visible_len(&p), 5);
    assert!(p.ends_with("\x1b[0m   "));
    assert_eq!(pad_right("abcdef", 3), "abcdef");
}

#[test]
fn clocks() {
    assert_eq!(format_runtime(3_723_999), "01:02:03");
    assert_eq!(format_runtime(360_000_000), "100:00:00");
    assert_eq!(format_runtime(-1_000), "00:00:-1");
    assert_eq!(format_countdown(125), "02:05");
    assert_eq!(format_countdown(-1), "00:00");
    assert_eq!(format_utc(1_750_464_000_123), "2025-06-21 00:00:00");
    assert_eq!(format_timestamp(1_750_464_061_000), "00:01:01");
    assert_eq!(format_utc(-1), "N/A");
    assert_eq!(format_utc(-1_000), "1969-12-31 23:59:59");
    assert_eq!(format_timestamp(i64::MAX), "N/A");
}

#[test]
fn only_confirmed_trouble_blocks_trading() {
    assert!(!MaintenanceStatus::default().blocks_trading());
    assert!(!MaintenanceStatus::unknown().blocks_trading());
    assert_eq!(MaintenanceStatus::unknown().label, "CHECK FAILED");
    let up = MaintenanceStatus::of_summary(Some(&summary("up", 0, vec!["NOTSTARTEDYET"])));
    assert!(up.ok && up.checked && !up.blocks_trading());
    assert_eq!(up.label, "OK");
    let work = MaintenanceStatus::of_summary(Some(&summary("UP", 2, vec!["x", "inProgress"])));
    assert!(work.blocks_trading());
    assert_eq!(work.label, "UNDER MAINTENANCE!");
    let incident = MaintenanceStatus::of_summary(Some(&summary("UP", 1, vec![])));
    assert_eq!(incident.label, "INCIDENT!");
    let odd = MaintenanceStatus::of_summary(Some(&summary("HASISSUES", 0, vec![])));
    assert_eq!(odd.label, "DEGRADED (HASISSUES)!");
    let blank = MaintenanceStatus::of_summary(Some(&Json::Null));
    assert_eq!(blank.label, "DEGRADED ()!");
    assert!(MaintenanceStatus::of_summary(None).ok);
    assert_eq!(paint_maintenance(&odd), "\x1b[1;38;5;174mMaintenance: DEGRADED (HASISSUES)!\x1b[0m");
}

#[test]
fn the_first_snapshot_is_blank() {
    let b = DashboardSnapshot::bootstrap();
    assert_eq!(b.system_logs, vec!["Starting…"]);
    assert_eq!(b.terminal_lines, vec!["Starting GEM server…"]);
    assert_eq!(b.execution.mode, "paper");
    assert!(b.meta.maintenance_ok);
    assert_eq!(execution_mode_label(ExecutionMode::Live), "live");
    assert_eq!(execution_mode_label(ExecutionMode::Paper), "paper");
}
