use sha2::{Digest, Sha256};
use silanes::deploy::deployed_config;
use silanes::download::{redact_url, sha256_matches, warn_if_insecure_download};
use silanes::host::{
    child_started, hook_argument, hook_executing_message, hook_result_message, poststop_env,
    HostState,
};
use silanes::install::can_overwrite_source;
use silanes::launch::{accepts_byte_ranges, chunk_plan, chunk_range, range_header, use_chunks};
use silanes::paths::{resolve_download_target, strip_verbatim_prefix};
use silanes::process_tree::collect_descendants;
use silanes::config::ServiceConfig;
use silanes::logs::{backup_name, escape_invisible, is_expired_log, needs_roll, roll_move};
use silanes::names::is_valid_service_name;
use silanes::scm::{
    build_dependency_string, parse_start_mode, scm_status_params, SERVICE_ACCEPT_SHUTDOWN,
    SERVICE_ACCEPT_STOP, SERVICE_AUTO_START, SERVICE_DEMAND_START, SERVICE_DISABLED,
    SERVICE_RUNNING, SERVICE_START_PENDING, SERVICE_STOPPED, SERVICE_STOP_PENDING,
};
use silanes::sddl::{sddl_dacl_grants_non_admin_write, sddl_owner_is_administrative, sddl_writable};
use silanes::version::compare_versions;

#[test]
fn compare_versions_basic() {
    assert_eq!(compare_versions("1.0.0", "1.0.0"), 0);
    assert_eq!(compare_versions("2.0.0", "1.9.9"), 1);
    assert_eq!(compare_versions("1.0.0", "1.0.1"), -1);
    assert_eq!(compare_versions("1.2", "1.2.3"), -1);
    assert_eq!(compare_versions("10.0.0", "9.9.9"), 1);
}

#[test]
fn is_valid_service_name_rejects_path_escape() {
    assert!(is_valid_service_name("my-service"));
    assert!(is_valid_service_name("带 空格 的服务"));
    assert!(is_valid_service_name("a"));
    assert!(is_valid_service_name(&"x".repeat(256)));
    assert!(!is_valid_service_name("."));
    assert!(!is_valid_service_name(".."));
    assert!(!is_valid_service_name("a\\b"));
    assert!(!is_valid_service_name("a/b"));
    assert!(!is_valid_service_name(""));
    assert!(!is_valid_service_name("   "));
    assert!(!is_valid_service_name(&"x".repeat(257)));
    assert!(!is_valid_service_name("a\u{1}b"));
    assert!(!is_valid_service_name("a\tb"));
}

#[test]
fn parse_start_mode_rules() {
    assert_eq!(parse_start_mode(None), (SERVICE_AUTO_START, false));
    assert_eq!(parse_start_mode(Some("")), (SERVICE_AUTO_START, false));
    assert_eq!(parse_start_mode(Some("automatic")), (SERVICE_AUTO_START, false));
    assert_eq!(parse_start_mode(Some("delayed_auto")), (SERVICE_AUTO_START, true));
    assert_eq!(parse_start_mode(Some("delayed-auto")), (SERVICE_AUTO_START, true));
    assert_eq!(parse_start_mode(Some("delayedauto")), (SERVICE_AUTO_START, true));
    assert_eq!(parse_start_mode(Some("DELAYED_AUTO")), (SERVICE_AUTO_START, true));
    assert_eq!(parse_start_mode(Some("manual")), (SERVICE_DEMAND_START, false));
    assert_eq!(parse_start_mode(Some("disabled")), (SERVICE_DISABLED, false));
    assert_eq!(parse_start_mode(Some("unknown")), (SERVICE_AUTO_START, false));
}

#[test]
fn build_dependency_string_multi_sz() {
    assert_eq!(
        build_dependency_string(Some("EventLog;WinRM")),
        Some("EventLog\0WinRM\0\0".to_string())
    );
    assert_eq!(
        build_dependency_string(Some("EventLog, WinRM")),
        Some("EventLog\0WinRM\0\0".to_string())
    );
    assert_eq!(build_dependency_string(Some("A:B")), Some("A\0B\0\0".to_string()));
    assert_eq!(build_dependency_string(None), None);
    assert_eq!(build_dependency_string(Some("")), None);
    assert_eq!(build_dependency_string(Some("  ;  ")), None);
}

#[test]
fn escape_invisible_escapes_control_chars() {
    assert_eq!(escape_invisible("\r\n\t"), "\\r\\n\\t");
    assert_eq!(escape_invisible("a\rb\nc\td\x01"), "a\\rb\\nc\\td\\x01");
    assert_eq!(escape_invisible("\x01"), "\\x01");
    assert_eq!(escape_invisible("\x7f"), "\\x7F");
    assert_eq!(escape_invisible("plain text"), "plain text");
    assert_eq!(escape_invisible("a\nb"), "a\\nb");
}

#[test]
fn is_valid_service_name_rejects_dos_devices() {
    for name in ["CON", "con", "PRN", "AUX", "NUL", "COM1", "com3", "LPT9", "CON.txt", "nul.log"] {
        assert!(!is_valid_service_name(name), "should reject DOS device name: {}", name);
    }
}

#[test]
fn is_valid_service_name_rejects_trailing_space_or_dot() {
    assert!(!is_valid_service_name("my-service "));
    assert!(!is_valid_service_name("my-service."));
    assert!(!is_valid_service_name("my-service ."));
}

#[test]
fn is_valid_service_name_accepts_valid_still() {
    assert!(is_valid_service_name("a b c"));
    assert!(is_valid_service_name("带空格-中文.服务"));
    assert!(is_valid_service_name("my-service.v2"));
}

#[test]
fn redact_url_strips_query_and_fragment() {
    assert_eq!(
        redact_url("https://example.com/path?token=secret&x=1#frag"),
        "https://example.com/path"
    );
    assert_eq!(
        redact_url("https://example.com/download/app.exe?auth=abc"),
        "https://example.com/download/app.exe"
    );
    assert_eq!(redact_url("http://host:8080/a?b=c"), "http://host:8080/a");
}

#[test]
fn redact_url_keeps_plain_url() {
    assert_eq!(redact_url("https://example.com/app.exe"), "https://example.com/app.exe");
    assert_eq!(redact_url("not-a-url"), "not-a-url");
}

#[test]
fn is_valid_service_name_stress_random_inputs_no_panic() {
    let mut state: u64 = 0x9E3779B97F4A7C15;
    let mut next = || {
        state ^= state << 13;
        state ^= state >> 7;
        state ^= state << 17;
        state
    };
    let chars: Vec<char> =
        "abcdefghijklmnopqrstuvwxyzABCDEFGHIJKLMNOPQRSTUVWXYZ0123456789 .\\/:\t-_\u{1}\u{7f}中文"
            .chars()
            .collect();
    for _ in 0..100_000 {
        let len = (next() % 270) as usize;
        let s: String = (0..len).map(|_| chars[(next() as usize) % chars.len()]).collect();
        let _ = is_valid_service_name(&s);
    }
}

#[test]
fn sddl_parse_detects_low_priv_write_aces() {
    assert!(sddl_dacl_grants_non_admin_write("D:PAI(A;;0x1301bf;;;WD)(A;;FA;;;SY)"));
    assert!(sddl_dacl_grants_non_admin_write("D:PAI(A;;M;;;BU)"));
    assert!(sddl_dacl_grants_non_admin_write("D:PAI(A;;FA;;;AU)"));
    assert!(sddl_dacl_grants_non_admin_write("D:PAI(A;;FW;;;IU)"));
    assert!(sddl_dacl_grants_non_admin_write("D:PAI(A;;FA;;;S-1-5-21-1111-2222-3333-1001)"));
    assert!(!sddl_dacl_grants_non_admin_write("D:PAI(A;;FA;;;SY)(A;;FA;;;BA)"));
    assert!(!sddl_dacl_grants_non_admin_write("D:PAI(A;;FR;;;WD)(A;;FA;;;SY)"));
}

#[test]
fn sddl_parse_ignores_inherit_only_creator_owner_ace() {
    assert!(!sddl_dacl_grants_non_admin_write(
        "D:PAI(A;ID;FA;;;SY)(A;ID;FA;;;BA)(A;OICIIOID;GA;;;CO)(A;ID;0x1200a9;;;BU)"
    ));
    assert!(sddl_dacl_grants_non_admin_write("D:PAI(A;;GA;;;CO)"));
}

#[test]
fn sddl_parse_owner_rules() {
    assert!(sddl_owner_is_administrative("O:BA"));
    assert!(sddl_owner_is_administrative("O:SY"));
    assert!(!sddl_owner_is_administrative("O:WD"));
    assert!(!sddl_owner_is_administrative("O:BU"));
    assert!(!sddl_owner_is_administrative("O:S-1-5-21-1111-2222-3333-1001"));
}

#[test]
fn warn_if_insecure_download_refuses_http_without_sha_even_when_fail_on_error_false() {
    let mut cfg = ServiceConfig::default();
    cfg.download_url = Some("http://example.com/app.exe".into());
    cfg.download_fail_on_error = false;
    assert!(warn_if_insecure_download(&cfg).is_err());
}

#[test]
fn warn_if_insecure_download_allows_https_or_with_sha() {
    let mut https = ServiceConfig::default();
    https.download_url = Some("https://example.com/app.exe".into());
    assert!(warn_if_insecure_download(&https).is_ok());

    let mut with_sha = ServiceConfig::default();
    with_sha.download_url = Some("http://example.com/app.exe".into());
    with_sha.download_sha256 = Some("abc123".into());
    assert!(warn_if_insecure_download(&with_sha).is_ok());

    assert!(warn_if_insecure_download(&ServiceConfig::default()).is_ok());
}

#[test]
fn scm_status_params_follows_scm_protocol() {
    assert_eq!(scm_status_params(SERVICE_START_PENDING), (0, 1));
    assert_eq!(scm_status_params(SERVICE_STOP_PENDING), (0, 1));
    assert_eq!(scm_status_params(SERVICE_STOPPED), (0, 0));
    assert_eq!(
        scm_status_params(SERVICE_RUNNING),
        (SERVICE_ACCEPT_STOP | SERVICE_ACCEPT_SHUTDOWN, 0)
    );
}

#[test]
fn is_valid_service_name_rejects_windows_reserved_chars() {
    for c in ['<', '>', ':', '"', '|', '?', '*'] {
        assert!(!is_valid_service_name(&format!("my-svc{}1", c)), "should reject: {c}");
    }
}

#[test]
fn resolve_download_target_path_resolution() {
    let mut rel = ServiceConfig::default();
    rel.download_url = Some("http://x/app.exe".into());
    rel.download_to = Some("sub\\app.exe".into());
    rel.service_executable_path = "C:\\ignored.exe".into();
    assert_eq!(resolve_download_target(&rel, "C:\\deploy"), "C:\\deploy\\sub\\app.exe");

    let mut abs = ServiceConfig::default();
    abs.download_url = Some("http://x/app.exe".into());
    abs.download_to = Some("C:\\abs\\app.exe".into());
    abs.service_executable_path = "C:\\ignored.exe".into();
    assert_eq!(resolve_download_target(&abs, "C:\\deploy"), "C:\\abs\\app.exe");

    let mut name = ServiceConfig::default();
    name.download_url = Some("http://x/app.exe".into());
    name.service_executable_path = "C:\\prog\\target.exe".into();
    assert_eq!(resolve_download_target(&name, "C:\\deploy"), "C:\\deploy\\target.exe");
}

#[test]
fn strip_verbatim_prefix_removes_windows_prefix() {
    assert_eq!(strip_verbatim_prefix("\\\\?\\C:\\x\\y"), "C:\\x\\y");
    assert_eq!(strip_verbatim_prefix("C:\\plain"), "C:\\plain");
}

#[test]
fn write_deployed_yaml_strips_service_password() {
    let deployed = deployed_config(
        "service_name: my-svc\nservice_password: sup3r-secret\nservice_executable_path: C:\\app.exe\n",
    );
    assert!(!deployed.contains("sup3r-secret"));
    assert!(!deployed.contains("service_password"));
    assert!(deployed.contains("service_name: my-svc"));
    assert!(deployed.contains("C:\\app.exe"));
    assert_eq!(deployed, "service_name: my-svc\r\nservice_executable_path: C:\\app.exe");
}

fn config_with(exe: &str, args: Option<&str>) -> ServiceConfig {
    let mut c = ServiceConfig::default();
    c.service_name = "x".into();
    c.service_display_name = "X".into();
    c.service_description = "d".into();
    c.service_executable_path = exe.into();
    c.service_executable_args = args.map(|a| a.to_string());
    c
}

#[test]
fn can_overwrite_source_same_and_different() {
    let a = config_with("C:\\app.exe", Some("--a"));
    let b = config_with("C:\\app.exe", Some("--a"));
    let c = config_with("C:\\other.exe", None);
    assert!(can_overwrite_source(Some(&a), Some(&b), false));
    assert!(!can_overwrite_source(Some(&a), Some(&c), true));
    // a missing deployed configuration falls back to whether the service is a platform deployment
    assert!(!can_overwrite_source(None, Some(&a), false));
    assert!(can_overwrite_source(None, Some(&a), true));
}

#[test]
fn sha256_matches_validates_file() {
    let data = b"hello silanes".to_vec();
    let hex = format!("{:x}", Sha256::digest(&data));
    assert!(sha256_matches(Some(&data), Some(&hex)));
    assert!(!sha256_matches(Some(&data), Some(&"0".repeat(64))));
    assert!(sha256_matches(Some(&data), None));
}

#[test]
fn delete_old_logs_cleans_split_and_rollover() {
    let cutoff = (2026, 1, 1);
    let names = [
        ("2020-01-01.log", true),
        ("2020-01-01.err.log", true),
        ("2020-01-01.log.1", true),
        ("2020-01-01.err.log.2", true),
        ("2099-01-01.log", false),
        ("notes.txt", false),
    ];
    let mut deleted = 0;
    for (n, expired) in names {
        assert_eq!(is_expired_log(n, cutoff), expired, "{n}");
        if is_expired_log(n, cutoff) {
            deleted += 1;
        }
    }
    assert_eq!(deleted, 4);
}

#[test]
fn roll_if_needed_rotates_log_chain() {
    let log = "C:\\logs\\2026-08-02.log";
    assert!(needs_roll(1_600_000, 1, 3));
    let moves: Vec<(String, String)> = (0..3).map(|k| roll_move(log, 3, k)).collect();
    assert_eq!(
        moves,
        vec![
            ("C:\\logs\\2026-08-02.log.2".to_string(), "C:\\logs\\2026-08-02.log.3".to_string()),
            ("C:\\logs\\2026-08-02.log.1".to_string(), "C:\\logs\\2026-08-02.log.2".to_string()),
            ("C:\\logs\\2026-08-02.log".to_string(), "C:\\logs\\2026-08-02.log.1".to_string()),
        ]
    );
    assert_eq!(backup_name(log, 3), "C:\\logs\\2026-08-02.log.3");
}

#[test]
fn collect_descendants_finds_grandchild() {
    // shell 100 starts powershell 200, which starts ping 300; 400 is unrelated
    let pairs = vec![(200, 100), (300, 200), (400, 1), (100, 50)];
    let d = collect_descendants(&pairs, 100);
    assert_eq!(d, vec![200, 300]);
    assert!(d.contains(&300));
}

#[test]
fn is_user_writable_rejects_everyone_write_on_dir() {
    assert!(sddl_writable(Some("O:BAD:PAI(A;OICI;0x1301bf;;;WD)(A;OICI;FA;;;SY)")));
}

#[test]
fn is_user_writable_rejects_users_write_on_dir() {
    assert!(sddl_writable(Some("O:BAD:PAI(A;OICI;0x1301bf;;;BU)(A;OICI;FA;;;BA)")));
}

#[test]
fn is_user_writable_rejects_interactive_write_on_dir() {
    assert!(sddl_writable(Some("O:BAD:PAI(A;OICI;0x1301bf;;;IU)(A;OICI;FA;;;SY)")));
}

#[test]
fn is_user_writable_rejects_everyone_write_on_file() {
    assert!(sddl_writable(Some("O:BAD:(A;;0x100116;;;WD)(A;;FA;;;SY)")));
}

#[test]
fn is_user_writable_allows_system_admin_secured_dir() {
    assert!(!sddl_writable(Some("O:BAD:PAI(A;OICI;FA;;;SY)(A;OICI;FA;;;BA)\r\n")));
}

#[test]
fn run_hook_executes_injects_env_and_logs() {
    assert_eq!(
        hook_argument(Some("echo PID=%WINSGF_CHILD_PID% EXIT=%WINSGF_CHILD_EXIT_CODE%")),
        Some("\"echo PID=%WINSGF_CHILD_PID% EXIT=%WINSGF_CHILD_EXIT_CODE%\"".to_string())
    );
    assert_eq!(hook_argument(Some("   ")), None);
    assert_eq!(hook_argument(None), None);
    assert_eq!(
        hook_executing_message("prestart", "echo hi"),
        "Hook [prestart] executing: echo hi"
    );
    assert_eq!(hook_result_message("prestart", Some(0), 5000), "Hook [prestart] completed (code 0)");
    assert_eq!(
        hook_result_message("poststop", Some(7), 5000),
        "Hook [poststop] exited with code 7 (non-fatal)"
    );
    assert_eq!(
        hook_result_message("prestart", None, 60000),
        "Hook [prestart] timed out after 60s, killing"
    );
    let mut s = HostState::new();
    s = child_started(s, 42);
    s.last_child_exit_code = 7;
    assert_eq!(
        poststop_env(&s),
        Some(vec![
            ("WINSGF_CHILD_PID".to_string(), "42".to_string()),
            ("WINSGF_CHILD_EXIT_CODE".to_string(), "7".to_string()),
        ])
    );
    assert_eq!(poststop_env(&HostState::new()), None);
}

#[test]
fn chunked_download_parallel_matches_source() {
    let size: u64 = 3 * 1024 * 1024;
    assert!(use_chunks(true, Some(size)));
    assert!(!use_chunks(false, Some(size)));
    assert!(!use_chunks(true, Some(1024 * 1024)));
    assert_eq!(chunk_plan(size), (3, 3));
    assert_eq!(chunk_range(size, 0), (0, 1048575));
    assert_eq!(chunk_range(size, 1), (1048576, 2097151));
    assert_eq!(chunk_range(size, 2), (2097152, 3145727));
    assert_eq!(range_header(1048576, 2097151), "bytes=1048576-2097151");
    assert!(accepts_byte_ranges(Some("Bytes")));
    assert!(!accepts_byte_ranges(Some("none")));
}
