use nimbus_cli::device::{
    container_path, escape_quotes_in, first_log_file, follow_log_file, ios_reset, log_file_pattern,
    logcat_args, Invocation, LaunchableApp,
};
use nimbus_cli::json::{CliError, Json};
use nimbus_cli::recipe::{try_find_experiment, NimbusApp};
use nimbus_cli::text::parse_json;

fn android(device: Option<&str>) -> LaunchableApp {
    LaunchableApp::Android {
        package_name: "org.mozilla.fenix.debug".to_string(),
        activity_name: ".App".to_string(),
        device_id: device.map(|d| d.to_string()),
    }
}

fn ios() -> LaunchableApp {
    LaunchableApp::Ios { app_id: "org.mozilla.ios.Fennec".to_string(), device_id: "booted".to_string() }
}

fn args(inv: &Invocation) -> Vec<&str> {
    inv.args.iter().map(|a| a.as_str()).collect()
}

fn tool(name: &str) -> String {
    name.to_string()
}

const ANDROID_HEAD: &str = "am start -n org.mozilla.fenix.debug/.App \\\n        -a android.intent.action.MAIN \\\n        -c android.intent.category.LAUNCHER \\\n        --esn nimbus-cli \\\n        --ei version 1 \\\n        ";

#[test]
fn android_tool_binds_the_device() {
    let inv = android(Some("emulator-5554")).exe(&tool("adb"));
    assert_eq!(inv.program, "adb");
    assert_eq!(args(&inv), vec!["-s", "emulator-5554"]);
    assert!(args(&android(None).exe(&tool("adb"))).is_empty());
    assert_eq!(args(&ios().exe(&tool("xcrun"))), vec!["simctl"]);
}

#[test]
fn kill_commands() {
    let inv = android(None).kill_app(&tool("adb"));
    assert_eq!(args(&inv), vec!["shell", "am force-stop org.mozilla.fenix.debug"]);
    let inv = ios().kill_app(&tool("xcrun"));
    assert_eq!(args(&inv), vec!["simctl", "terminate", "booted", "org.mozilla.ios.Fennec"]);
    assert!(ios().kill_succeeded(false));
    assert!(!android(None).kill_succeeded(false));
    assert!(android(None).kill_succeeded(true));
}

#[test]
fn reset_commands() {
    let inv = android(Some("d1")).reset_app(&tool("adb"));
    assert_eq!(args(&inv), vec!["-s", "d1", "shell", "pm clear org.mozilla.fenix.debug"]);
    let inv = ios().reset_app(&tool("xcrun"));
    assert_eq!(args(&inv), vec!["simctl", "privacy", "booted", "reset", "all", "org.mozilla.ios.Fennec"]);
    let inv = ios().ios_app_container(&tool("xcrun"), &"groups".to_string());
    assert_eq!(args(&inv), vec!["simctl", "get_app_container", "booted", "org.mozilla.ios.Fennec", "groups"]);
}

#[test]
fn ios_reset_empties_data_and_group_containers() {
    let groups = "group.a\t/path/a\nbroken line\ngroup.b\t/path/b\twith tab\ngroup.c\t\n".to_string();
    let dirs = ios_reset(&"/data".to_string(), &groups);
    assert_eq!(dirs, vec!["/data".to_string(), "/path/a".to_string(), "/path/b\twith tab".to_string()]);
}

#[test]
fn ios_reset_before_first_launch_still_succeeds() {
    let dirs = ios_reset(&String::new(), &String::new());
    assert!(dirs.is_empty());
    assert!(matches!(first_log_file(None), Err(CliError::LogsUnavailable)));
    assert_eq!(first_log_file(Some("/d/a.log".to_string())).unwrap(), "/d/a.log");
}

#[test]
fn container_output_is_trimmed() {
    assert_eq!(container_path("  /Users/x/data\n"), "/Users/x/data");
}

#[test]
fn log_commands() {
    assert_eq!(logcat_args(), vec!["logcat".to_string(), "-b".to_string(), "main".to_string()]);
    let inv = android(None).android_logs(&tool("adb"), true);
    assert_eq!(args(&inv), vec!["logcat", "-b", "main", "-v", "color"]);
    let inv = android(None).android_logs(&tool("adb"), false);
    assert_eq!(args(&inv), vec!["logcat", "-b", "main", "-d"]);
    let inv = follow_log_file(&"/d/a.log".to_string());
    assert_eq!(inv.program, "tail");
    assert_eq!(args(&inv), vec!["-f", "/d/a.log"]);
    assert_eq!(log_file_pattern(&"/data".to_string()), "/data/**/*.log");
    assert_eq!(
        ios().ios_log_file_command(),
        "find $(xcrun simctl get_app_container booted org.mozilla.ios.Fennec data) -name \\*.log"
    );
}

#[test]
fn quotes_are_escaped() {
    assert_eq!(escape_quotes_in("it's 'ok'"), "it&apos;s &apos;ok&apos;");
    assert_eq!(escape_quotes_in(""), "");
}

#[test]
fn android_start_with_all_flags() {
    let payload = parse_json(r#"{"data":["it's"]}"#).unwrap();
    let inv = android(None).start_app(&tool("adb"), true, Some(&payload), true);
    let sh = format!(
        "{}--ez reset-db true \\\n        --es experiments '{{\"data\":[\"it&apos;s\"]}}' \\\n        --ez log-state true",
        ANDROID_HEAD
    );
    assert_eq!(args(&inv), vec!["shell", sh.as_str()]);
}

#[test]
fn android_log_state_only() {
    let inv = android(None).log_state(&tool("adb"));
    let sh = format!("{}--ez log-state true", ANDROID_HEAD);
    assert_eq!(args(&inv), vec!["shell", sh.as_str()]);
}

#[test]
fn ios_start_with_all_flags() {
    let payload = parse_json(r#"{"data":[]}"#).unwrap();
    let inv = ios().ios_start(&tool("xcrun"), true, Some(&payload), true);
    assert_eq!(
        args(&inv),
        vec![
            "simctl", "launch", "booted", "org.mozilla.ios.Fennec", "--nimbus-cli", "--version", "1",
            "--reset-db", "--experiments", r#"{"data":[]}"#, "--log-state"
        ]
    );
}

#[test]
fn unenroll_all_sends_an_empty_payload() {
    let inv = ios().unenroll_all(&tool("xcrun"));
    assert_eq!(
        args(&inv),
        vec![
            "simctl", "launch", "booted", "org.mozilla.ios.Fennec", "--nimbus-cli", "--version", "1",
            "--experiments", r#"{"data":[]}"#, "--log-state"
        ]
    );
}

#[test]
fn apply_list_sends_the_list() {
    let list = parse_json(r#"{"data":[{"slug":"x"}]}"#).unwrap();
    let inv = ios().apply_list(&tool("xcrun"), &list, false);
    assert_eq!(
        args(&inv),
        vec![
            "simctl", "launch", "booted", "org.mozilla.ios.Fennec", "--nimbus-cli", "--version", "1",
            "--reset-db", "--experiments", r#"{"data":[{"slug":"x"}]}"#, "--log-state"
        ]
    );
}

#[test]
fn enroll_launches_with_the_prepared_payload() {
    let list = parse_json(
        r#"{"data":[{"slug":"exp1","appName":"fenix","branches":[{"slug":"control"},{"slug":"treatment"}],"featureIds":["f1"]}]}"#,
    )
    .unwrap();
    let record: Json = try_find_experiment(list, &"exp1".to_string()).unwrap();
    let app = NimbusApp { app_name: "fenix".to_string(), channel: "nightly".to_string() };
    let inv = ios()
        .enroll(&tool("xcrun"), &app, record, Vec::new(), &"treatment".to_string(), false, false, true)
        .unwrap();
    let a = args(&inv);
    assert_eq!(a[8], r#"{"data":[{"appName":"fenix","branches":[{"slug":"treatment"}],"bucketConfig":{"count":10000,"start":0,"total":10000},"featureIds":["f1"],"slug":"exp1","targeting":"true"}]}"#);
    assert_eq!(a.len(), 10);
}
