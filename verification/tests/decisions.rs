use silanes::acl::{harden_script, harden_warning, ps_quoted, sddl_query_script};
use silanes::cli::{
    command_result, command_word, error_line, list_output, route_args, service_argument,
    start_command, status_line, CliExit, Route, ServiceCommand,
};
use silanes::config::ServiceConfig;
use silanes::deploy::{deployed_config, is_password_line_exec, lines};
use silanes::host::{
    loop_step, output_line, restart_outcome, stop_lines, stop_step, tick_step, ChildStatus,
    HostState, LoopStep, ScmEvent, ScmPhase, StopAction, StopStage, TickAction,
};
use silanes::host::{hook_wait_step, scm_step, HookWait};
use silanes::scm::{parse_start_mode, start_mode_lowered};
use silanes::install::{
    check_install_location, check_install_name, install_argument, install_done_message,
    install_path, install_command, updater_registration, InstallFacts,
};
use silanes::launch::{
    cache_verdict, chunk_failed_message, download_failure_message, download_tmp_path,
    failed_download, host_config_path, host_settings, launch_check, ranged_status, raw_arguments,
    retry_chunk, target_message, working_dir, CacheVerdict, DownloadFail,
};
use silanes::download::redact_url;
use silanes::logs::{cleanup_message, escape_invisible, retention_cutoff};
use silanes::process_tree::collect_descendants;
use silanes::sddl::{sddl_rights_include_write, sddl_sid_is_administrative, sddl_writable};
use silanes::scm::{registration_configs, wait_poll, ConfigCall, SERVICE_AUTO_START, SERVICE_DEMAND_START, SERVICE_RUNNING, SERVICE_STOPPED};
use silanes::tail::{parent, with_extension};
use silanes::template::f;
use silanes::upgrade::{
    cleanup_decision, scan_opening, upgrade_begin, upgrade_check, upgrade_step, CleanupAction,
    Tally, UpgradeAction, UpgradeCheck, UpgradeState,
};
use silanes::upgrade::UpgradeAction::{
    CheckHostExists, CopyToTemp, Log, MoveHostToBackup, MoveTempToHost, QueryStatus, ReadTempVersion,
    RemoveBackup, RemoveTemp, RestoreBackup, RestoreBackupIfPresent, StartService, StopService,
};
use silanes::version::{compare_versions, file_version_string};
use silanes::wide::{decode_utf16_lossy, is_interactive_station, reg_string};

// ==================== paths ====================

#[test]
fn parent_follows_windows_rules() {
    assert_eq!(parent("C:\\deploy\\app.exe"), Some("C:\\deploy".to_string()));
    assert_eq!(parent("C:\\app.exe"), Some("C:\\".to_string()));
    assert_eq!(parent("C:\\"), None);
    assert_eq!(parent("C:"), None);
    assert_eq!(parent(""), None);
    assert_eq!(parent("app.exe"), Some(String::new()));
    assert_eq!(parent("C:\\a\\\\b\\"), Some("C:\\a".to_string()));
    assert_eq!(parent("a/./b"), Some("a".to_string()));
    assert_eq!(parent("."), Some(String::new()));
    assert_eq!(parent("./a"), Some(".".to_string()));
    assert_eq!(parent("\\\\server\\share\\dir\\f.txt"), Some("\\\\server\\share\\dir".to_string()));
}

#[test]
fn with_extension_replaces_the_last_extension() {
    assert_eq!(with_extension("C:\\x\\silanes64.exe", "yaml"), "C:\\x\\silanes64.yaml");
    assert_eq!(with_extension("C:\\x\\archive.tar.gz", "yaml"), "C:\\x\\archive.tar.yaml");
    assert_eq!(with_extension("C:\\x\\noext", "yaml"), "C:\\x\\noext.yaml");
    assert_eq!(with_extension("C:\\x\\.hidden", "yaml"), "C:\\x\\.hidden.yaml");
    assert_eq!(with_extension("C:\\x\\app.exe\\", "yaml"), "C:\\x\\app.yaml");
    assert_eq!(with_extension("C:\\", "yaml"), "C:\\");
    assert_eq!(with_extension("C:\\x\\..", "yaml"), "C:\\x\\..");
    assert_eq!(with_extension("C:\\x\\app.exe", ""), "C:\\x\\app");
}

// ==================== install ====================

fn facts() -> InstallFacts {
    InstallFacts {
        config_path: "C:\\cfg\\svc.yaml".into(),
        own_exe: "C:\\Program Files\\Silanes\\silanes64.exe".into(),
        registry_dir: "C:\\ProgramData\\Silanes\\svcs".into(),
        executable_found: true,
        inplace_writable: false,
        service_exists: false,
        image_path: None,
        overwrite_allowed: false,
    }
}

fn config(name: &str) -> ServiceConfig {
    let mut c = ServiceConfig::default();
    c.service_name = name.into();
    c.service_executable_path = "C:\\app\\app.exe".into();
    c
}

#[test]
fn install_command_needs_a_path() {
    assert_eq!(
        install_argument(&[]),
        Err(CliExit::Usage("Usage: -m --install <config path>".into()))
    );
    assert_eq!(install_argument(&["svc.yaml"]), Ok("svc.yaml".to_string()));
}

#[test]
fn install_plans_a_deployed_service() {
    let mut c = config("my-svc");
    c.service_start_mode = Some("Manual".into());
    c.restart_delay_ms = 5000;
    let p = install_command(&c, &facts()).unwrap();
    assert!(!p.is_update);
    assert_eq!(p.base_dir, "C:\\ProgramData\\Silanes\\svcs\\my-svc");
    assert_eq!(p.exe_dest, "C:\\ProgramData\\Silanes\\svcs\\my-svc\\my-svc.exe");
    assert_eq!(p.yaml_dest, "C:\\ProgramData\\Silanes\\svcs\\my-svc\\my-svc.yaml");
    assert_eq!(p.bin_path, "\"C:\\ProgramData\\Silanes\\svcs\\my-svc\\my-svc.exe\"");
    assert_eq!((p.start_type, p.delayed_auto), (SERVICE_DEMAND_START, false));
    assert_eq!((p.failure_reset_sec, p.restart_delay_ms), (86400, 5000));
}

#[test]
fn install_refuses_each_bad_input() {
    assert_eq!(
        install_command(&config(".."), &facts()).err().unwrap(),
        "Invalid service name: '..'. Service names must be 1-256 chars, must not be '.' or '..', and must not contain '\\', '/' or control characters."
    );
    assert_eq!(
        check_install_name("silanes service UPDATER"),
        Err("Service name 'silanes service UPDATER' is reserved for the internal Silanes service updater. Use a different service_name.".into())
    );
    let mut missing = facts();
    missing.executable_found = false;
    assert_eq!(
        install_command(&config("a"), &missing).err().unwrap(),
        "Invalid file path in service config"
    );
    // a relative executable path or a download is not checked at install time
    let mut rel = config("a");
    rel.service_executable_path = "app.exe".into();
    assert!(install_command(&rel, &missing).is_ok());
    let mut exists = facts();
    exists.service_exists = true;
    assert_eq!(
        install_command(&config("a"), &exists).err().unwrap(),
        "Service name 'a' is already registered by a different service. Use a different service_name or uninstall it first."
    );
    exists.overwrite_allowed = true;
    assert!(install_command(&config("a"), &exists).unwrap().is_update);
}

#[test]
fn install_in_place_checks() {
    let mut c = config("silanes64");
    c.deploy_inplace = true;
    let mut f = facts();
    f.own_exe = "C:\\Tools\\silanes64.exe".into();
    f.config_path = "\\\\?\\c:\\tools\\SILANES64.yaml".into();
    let p = install_command(&c, &f).unwrap();
    assert_eq!(p.bin_path, "\"C:\\Tools\\silanes64.exe\"");

    f.config_path = "C:\\Tools\\other.yaml".into();
    assert_eq!(
        install_command(&c, &f).err().unwrap(),
        "deploy_inplace: config file must be named 'silanes64.yaml' next to the executable (host reads its own .yaml by name)."
    );
    f.config_path = "C:\\Tools\\silanes64.yaml".into();
    f.inplace_writable = true;
    assert_eq!(
        install_command(&c, &f).err().unwrap(),
        "Application error: deploy_inplace: directory (or its exe/yaml) is writable by unprivileged users. Move the executable to a SYSTEM/Administrators-only location (e.g. Program Files)."
    );
    f.inplace_writable = false;
    let other = {
        let mut o = c.clone();
        o.service_name = "other".into();
        o
    };
    assert_eq!(
        install_command(&other, &f).err().unwrap(),
        "Application error: deploy_inplace: service_name must equal the executable file name 'silanes64', otherwise SCM cannot dispatch the service."
    );
    f.service_exists = true;
    f.image_path = Some("\"c:\\tools\\SILANES64.EXE\"".into());
    assert!(install_command(&c, &f).unwrap().is_update);
    f.image_path = Some("\"D:\\elsewhere\\silanes64.exe\"".into());
    assert!(install_command(&c, &f).is_err());
    assert_eq!(install_done_message(true), "Service updated successfully");
    assert_eq!(install_done_message(false), "Service registered successfully");
}

#[test]
fn updater_registration_and_location() {
    assert_eq!(install_path(None), "C:\\Program Files\\Silanes\\silanes64.exe");
    assert_eq!(install_path(Some("D:\\Apps")), "D:\\Apps\\Silanes\\silanes64.exe");
    assert_eq!(
        check_install_location("c:\\program files\\silanes\\SILANES64.EXE", "C:\\Program Files\\Silanes\\silanes64.exe"),
        None
    );
    assert_eq!(
        check_install_location("C:\\tmp\\silanes64.exe", "C:\\Program Files\\Silanes\\silanes64.exe"),
        Some(vec![
            "Error: This command must be run from the installed location:".to_string(),
            "  C:\\Program Files\\Silanes\\silanes64.exe".to_string(),
            "Current: C:\\tmp\\silanes64.exe".to_string(),
        ])
    );
    let r = updater_registration("C:\\Program Files\\Silanes\\silanes64.exe");
    assert_eq!(r.name, "Silanes Service Updater");
    assert_eq!(r.bin_path, "\"C:\\Program Files\\Silanes\\silanes64.exe\" -internal --updater");
    assert_eq!(r.start_type, SERVICE_AUTO_START);
    assert!(r.delayed_auto);
    assert_eq!((r.failure_reset_sec, r.restart_delay_ms), (0, 0));
}

// ==================== updater ====================

#[test]
fn cleanup_decisions_in_order() {
    let c = config("svc");
    assert_eq!(
        cleanup_decision("svc", false, true, true, Ok(&c), true),
        (
            CleanupAction::RemoveOrphanDirectory,
            Some("[svc] Service not in SCM, removing orphaned directory".to_string())
        )
    );
    assert_eq!(
        cleanup_decision("svc", true, false, true, Ok(&c), true),
        (
            CleanupAction::LeaveForeign,
            Some("[svc] Invalid config (not a Silanes-managed service), removing stale service".to_string())
        )
    );
    assert_eq!(
        cleanup_decision("svc", true, true, false, Ok(&c), true),
        (CleanupAction::RemoveStale, Some("[svc] Config file missing, removing stale service".to_string()))
    );
    assert_eq!(
        cleanup_decision("svc", true, true, true, Err("bad yaml"), true),
        (CleanupAction::RemoveStale, Some("[svc] Invalid config (bad yaml), removing stale service".to_string()))
    );
    assert_eq!(
        cleanup_decision("svc", true, true, true, Ok(&c), false),
        (
            CleanupAction::RemoveStale,
            Some("[svc] Invalid executable path 'C:\\app\\app.exe', removing stale service".to_string())
        )
    );
    assert_eq!(cleanup_decision("svc", true, true, true, Ok(&c), true), (CleanupAction::Keep, None));
    let mut dl = c.clone();
    dl.download_url = Some("https://x/app.exe".into());
    assert_eq!(cleanup_decision("svc", true, true, true, Ok(&dl), false), (CleanupAction::Keep, None));
}

#[test]
fn upgrade_checks_only_older_hosts() {
    assert_eq!(
        upgrade_check("svc", true, true, Some("1.0.0.0"), "1.2.0.0"),
        UpgradeCheck::Upgrade("[svc] v1.0.0.0 \u{2192} v1.2.0.0".into())
    );
    assert_eq!(upgrade_check("svc", true, true, Some("1.2.0.0"), "1.2.0.0"), UpgradeCheck::Skip(None));
    assert_eq!(upgrade_check("svc", true, true, Some("2.0"), "1.2.0.0"), UpgradeCheck::Skip(None));
    assert_eq!(upgrade_check("SILANES SERVICE UPDATER", true, true, Some("0.1"), "1.0"), UpgradeCheck::Skip(None));
    assert_eq!(
        upgrade_check("svc", true, false, None, "1.0"),
        UpgradeCheck::Skip(Some("[svc] Host binary not found, skipping".into()))
    );
    assert_eq!(
        upgrade_check("svc", true, true, None, "1.0"),
        UpgradeCheck::Skip(Some("[svc] Unable to read host version, skipping".into()))
    );
    assert_eq!(
        upgrade_check("svc", false, true, Some("0.1"), "1.0"),
        UpgradeCheck::Skip(Some("[svc] Invalid config (not a Silanes-managed service), removing stale service".into()))
    );
}

fn run_upgrade(results: &[Result<bool, String>]) -> (UpgradeState, Vec<UpgradeAction>) {
    let (mut s, mut all) = upgrade_begin();
    for r in results {
        let (s2, acts) = upgrade_step("svc", s, r.clone());
        s = s2;
        all.extend(acts);
    }
    (s, all)
}

#[test]
fn upgrade_of_a_running_service() {
    let (s, acts) = run_upgrade(&[Ok(true), Ok(true), Ok(true), Ok(true), Ok(true), Ok(true), Ok(true), Ok(true)]);
    assert_eq!(s, UpgradeState::Done { upgraded: true });
    assert_eq!(
        acts,
        vec![
            QueryStatus,
            StopService,
            RemoveTemp,
            RemoveBackup,
            CopyToTemp,
            ReadTempVersion,
            CheckHostExists,
            MoveHostToBackup,
            MoveTempToHost,
            Log("upgrade".into(), "[svc] Host binary replaced".into()),
            StartService,
            Log("upgrade".into(), "[svc] Service restarted".into()),
            RemoveBackup,
        ]
    );
}

#[test]
fn upgrade_rolls_back_and_restarts() {
    // stopped service, swap fails after the backup: restore, clean up, no start
    let (s, acts) = run_upgrade(&[Ok(false), Ok(true), Ok(true), Ok(true), Ok(true), Err("locked".into())]);
    assert_eq!(s, UpgradeState::Done { upgraded: false });
    assert_eq!(
        &acts[acts.len() - 4..],
        &[RestoreBackup, RemoveTemp, RemoveBackup, Log("error".into(), "[svc] Upgrade failed: locked".into())]
    );
    // running service whose copy has no version: cleaned up and started again
    let (s, acts) = run_upgrade(&[Ok(true), Ok(true), Ok(true), Ok(false)]);
    assert_eq!(s, UpgradeState::Done { upgraded: false });
    assert_eq!(
        &acts[acts.len() - 4..],
        &[
            RemoveTemp,
            RemoveBackup,
            Log("error".into(), "[svc] Upgrade failed: invalid temp host version".into()),
            StartService
        ]
    );
    // a service that cannot be stopped is started again and counted failed
    let (s, acts) = run_upgrade(&[Ok(true), Err("x".into())]);
    assert_eq!(s, UpgradeState::Done { upgraded: false });
    assert_eq!(
        &acts[2..],
        &[Log("error".into(), "[svc] Failed to stop service, skipping upgrade".into()), StartService]
    );
    // a failed restart restores the backup
    let (s, acts) =
        run_upgrade(&[Ok(true), Ok(true), Ok(true), Ok(true), Ok(true), Ok(true), Ok(true), Err("t".into())]);
    assert_eq!(s, UpgradeState::Done { upgraded: false });
    assert_eq!(
        &acts[acts.len() - 2..],
        &[RestoreBackupIfPresent, Log("error".into(), "[svc] Upgrade failed: t".into())]
    );
    // a finished replacement asks for nothing more
    assert_eq!(upgrade_step("svc", UpgradeState::Done { upgraded: true }, Ok(true)).1, vec![]);
}

#[test]
fn scan_opening_and_summary() {
    assert_eq!(
        scan_opening(0, 0, Some("1.0")),
        Err(("No registered services found, skipping upgrade".to_string(), true))
    );
    assert_eq!(
        scan_opening(2, 0, Some("1.0")),
        Err(("All services were stale, nothing to upgrade".to_string(), true))
    );
    assert_eq!(
        scan_opening(2, 1, None),
        Err(("Unable to determine current version, aborting".to_string(), false))
    );
    assert_eq!(
        scan_opening(3, 2, Some("1.4.0.0")),
        Ok("Scanning 2 registered service(s) | Current version: v1.4.0.0".to_string())
    );
    let mut t = Tally::new();
    t.skip();
    t.finish(true);
    t.finish(false);
    t.finish(true);
    assert_eq!(t.summary(), "Scan complete: 2 upgraded | 1 skipped | 1 failed");
}

// ==================== host ====================

#[test]
fn host_restarts_three_times_then_stops() {
    let mut s = HostState::new();
    let mut restarts = 0;
    loop {
        let (s1, a) = tick_step(s, ChildStatus::Exited(1));
        if a == TickAction::Restart {
            restarts += 1;
            let (s2, a2) = restart_outcome(s1, true);
            assert_eq!(a2, TickAction::Continue);
            s = s2;
        } else {
            assert_eq!(a, TickAction::StopHost);
            assert_eq!(s1.consecutive_failures, 0);
            assert_eq!(s1.last_child_exit_code, 1);
            break;
        }
    }
    assert_eq!(restarts, 3);
    let (_, a) = tick_step(HostState::new(), ChildStatus::Exited(0));
    assert_eq!(a, TickAction::StopHost);
    assert_eq!(tick_step(HostState::new(), ChildStatus::Running).1, TickAction::Continue);
    let mut stopping = HostState::new();
    stopping.stopping = true;
    assert_eq!(tick_step(stopping, ChildStatus::Exited(3)).1, TickAction::Quit);
}

#[test]
fn stopping_the_child_tries_gentle_ways_first() {
    let (st, a) = stop_step(StopStage::Checking, 77, ChildStatus::Running, false, true);
    assert_eq!(st, StopStage::Closing);
    assert_eq!(a, vec![StopAction::Log("Stopping child process (PID: 77)".into()), StopAction::CloseMainWindow]);
    let (st, a) = stop_step(st, 77, ChildStatus::Running, false, true);
    assert_eq!((st, a), (StopStage::Interrupting, vec![StopAction::SendCtrlC]));
    let (st, a) = stop_step(st, 77, ChildStatus::Running, false, true);
    assert_eq!(st, StopStage::Stopped);
    assert_eq!(
        a,
        vec![
            StopAction::Log("Graceful shutdown failed, force killing".into()),
            StopAction::ForceKill { with_descendants: true },
            StopAction::Log("Child force killed".into()),
        ]
    );
    let (_, a) = stop_step(StopStage::Closing, 77, ChildStatus::Running, true, true);
    assert_eq!(a, vec![StopAction::Log("Child exited via WM_CLOSE".into())]);
    let (_, a) = stop_step(StopStage::Checking, 77, ChildStatus::Exited(0), false, true);
    assert_eq!(a, vec![StopAction::Log("Child process already exited, nothing to stop".into())]);
    assert_eq!(stop_step(StopStage::Checking, 77, ChildStatus::Unknown, false, true).1, vec![]);
    let (_, a) = stop_step(StopStage::Interrupting, 77, ChildStatus::Running, false, false);
    assert_eq!(a[1], StopAction::ForceKill { with_descendants: false });
}

#[test]
fn service_loop_and_stop_lines() {
    assert_eq!(loop_step(true, true), LoopStep::Stop);
    assert_eq!(loop_step(false, true), LoopStep::Shutdown);
    assert_eq!(loop_step(false, false), LoopStep::Poll);
    assert_eq!(
        stop_lines(false),
        ("SCM stop signal received".to_string(), "Service stopping".to_string(), Some("Service stopped".to_string()))
    );
    assert_eq!(
        stop_lines(true),
        ("SCM shutdown signal received".to_string(), "System shutting down".to_string(), None)
    );
    assert_eq!(output_line("hello \r\n"), Some("hello".to_string()));
    assert_eq!(output_line("  \r\n"), None);
}

#[test]
fn host_start_up_settings() {
    assert_eq!(host_config_path("C:\\svcs\\a\\a.exe"), "C:\\svcs\\a\\a.yaml");
    let mut c = ServiceConfig::default();
    c.log_dir = Some("logs2".into());
    c.log_enabled = true;
    c.log_max_backup_count = 5;
    let s = host_settings("C:\\svcs\\a\\a.exe", &c);
    assert_eq!(s.deploy_dir, "C:\\svcs\\a");
    assert_eq!(s.log_dir, "C:\\svcs\\a\\logs2");
    c.log_dir = None;
    assert_eq!(host_settings("C:\\svcs\\a\\a.exe", &c).log_dir, "C:\\svcs\\a\\logs");
    c.log_dir = Some("D:\\logs".into());
    assert_eq!(host_settings("C:\\svcs\\a\\a.exe", &c).log_dir, "D:\\logs");
    assert_eq!(host_settings("a.exe", &c).deploy_dir, "");
    assert_eq!(host_settings("C:", &c).deploy_dir, ".");
}

#[test]
fn child_launch_checks_and_messages() {
    assert_eq!(working_dir("C:\\app\\app.exe", "C:\\deploy"), "C:\\app");
    assert_eq!(working_dir("C:", "C:\\deploy"), "C:\\deploy");
    assert_eq!(
        launch_check("C:\\app\\app.exe", false, "C:\\app", true),
        Err("Executable not found: 'C:\\app\\app.exe'. Check service_executable_path or download settings.".into())
    );
    assert_eq!(
        launch_check("C:\\app\\app.exe", true, "C:\\app", false),
        Err("Working directory does not exist: 'C:\\app'. Check service_executable_path / download_to.".into())
    );
    assert_eq!(launch_check("C:\\app\\app.exe", true, "C:\\app", true), Ok(()));
    assert_eq!(target_message("C:\\a.exe", Some("--x \"y z\"")), "Target: C:\\a.exe --x \"y z\"");
    assert_eq!(target_message("C:\\a.exe", Some("")), "Target: C:\\a.exe");
    assert_eq!(raw_arguments(Some("  ")), None);
    assert_eq!(raw_arguments(Some("-v")), Some("-v".to_string()));
}

#[test]
fn download_decisions() {
    assert_eq!(cache_verdict(true, true), CacheVerdict::UpToDate);
    assert_eq!(cache_verdict(true, false), CacheVerdict::Mismatch);
    assert_eq!(cache_verdict(false, true), CacheVerdict::Missing);
    assert_eq!(
        failed_download("https://x/a", true, true, true),
        (None, Err("Download failed: https://x/a".to_string()))
    );
    let line = "Download failed but fail_on_error=false \u{2014} continuing (target may be missing)".to_string();
    assert_eq!(
        failed_download("https://x/a", false, true, false),
        (Some(line.clone()), Err("Download failed: https://x/a".to_string()))
    );
    assert_eq!(failed_download("https://x/a", false, false, false), (Some(line), Ok(())));
    assert_eq!(download_tmp_path("C:\\a.exe"), "C:\\a.exe.download.tmp");
    assert_eq!(
        download_failure_message(&DownloadFail::Timeout),
        Some("Download timed out after 300s".to_string())
    );
    assert_eq!(download_failure_message(&DownloadFail::DigestMismatch), None);
    assert_eq!(
        download_failure_message(&DownloadFail::Other("boom".into())),
        Some("Download error: boom".to_string())
    );
    assert_eq!(ranged_status(206), Ok(()));
    assert_eq!(ranged_status(200), Err("server returned HTTP 200 for ranged request".to_string()));
    assert!(retry_chunk(2));
    assert!(!retry_chunk(3));
    assert_eq!(chunk_failed_message(0, 1048575), "chunk 0-1048575 failed after retries");
}

// ==================== ACLs and text ====================

#[test]
fn acl_scripts_double_single_quotes() {
    assert_eq!(ps_quoted("C:\\it's"), "C:\\it''s".chars().collect::<Vec<char>>());
    assert_eq!(
        sddl_query_script("C:\\o'x"),
        "(Get-Acl -LiteralPath 'C:\\o''x').GetSecurityDescriptorSddlForm(6)"
    );
    let s = harden_script("C:\\d");
    assert!(s.starts_with("$a=Get-Acl -LiteralPath 'C:\\d';$a.SetAccessRuleProtection($true,$false);"));
    assert!(s.ends_with("Set-Acl -LiteralPath 'C:\\d' -AclObject $a"));
    assert!(s.contains("S-1-5-32-544"));
    assert_eq!(
        harden_warning("C:\\d", Some("  denied \r\n")),
        "Warning: failed to secure deployment directory 'C:\\d': denied"
    );
    assert_eq!(
        harden_warning("C:\\d", None),
        "Warning: failed to secure deployment directory 'C:\\d': ACL hardening failed"
    );
}

#[test]
fn deployed_config_line_rules() {
    let ls = lines("a\r\nb\n\nc\r");
    let got: Vec<String> = ls.iter().map(|l| l.iter().collect()).collect();
    assert_eq!(got, vec!["a", "b", "", "c\r"]);
    assert!(lines("").is_empty());
    assert!(is_password_line_exec(&"  Service_Password: x".chars().collect()));
    assert!(!is_password_line_exec(&"# service_password: x".chars().collect()));
    assert_eq!(deployed_config("a: 1\n\tSERVICE_PASSWORD:x\r\nb: 2\n"), "a: 1\r\nb: 2");
    assert_eq!(deployed_config(""), "");
}

#[test]
fn utf16_buffers_from_windows() {
    let mut buf: Vec<u16> = "C:\\svc\\a.exe".encode_utf16().collect();
    buf.push(0);
    buf.push(0x41);
    assert_eq!(reg_string(&buf), Some("C:\\svc\\a.exe".to_string()));
    assert_eq!(reg_string(&vec![0, 0x41]), None);
    // a surrogate pair decodes to one character, a lone surrogate to U+FFFD
    assert_eq!(decode_utf16_lossy(&vec![0xD83D, 0xDE00, 0xD800, 0x61]), vec!['\u{1F600}', '\u{FFFD}', 'a']);
    let mut ws: Vec<u16> = "WinSta0".encode_utf16().collect();
    ws.extend([0u16; 8]);
    assert!(is_interactive_station(&ws));
    assert!(!is_interactive_station(&"Service-0x0-3e7$".encode_utf16().collect()));
}

#[test]
fn file_versions_compare_as_packed_numbers() {
    let a = file_version_string(0x0001_0002, 0x0003_0004);
    assert_eq!(a, "1.2.3.4");
    let b = file_version_string(0x0001_0002, 0x000A_0000);
    assert_eq!(b, "1.2.10.0");
    assert_eq!(compare_versions(&a, &b), -1);
    assert_eq!(compare_versions(&b, &a), 1);
    assert_eq!(compare_versions(&a, &a), 0);
}

#[test]
fn process_tree_search_order() {
    let pairs = vec![(2, 1), (3, 1), (4, 2), (1, 1), (5, 3), (4, 2)];
    // breadth first, each process once
    assert_eq!(collect_descendants(&pairs, 1), vec![2, 3, 4, 5]);
    assert_eq!(collect_descendants(&pairs, 9), Vec::<u32>::new());
}

#[test]
fn process_tree_with_reused_ids_ends() {
    // 1 -> 2 -> 3 -> 1 (a reused id closes a cycle through the root), 3 -> 4
    let pairs = vec![(2, 1), (3, 2), (1, 3), (4, 3), (6, 5)];
    assert_eq!(collect_descendants(&pairs, 1), vec![2, 3, 4]);
    assert_eq!(collect_descendants(&pairs, 3), vec![1, 4, 2]);
}

#[test]
fn log_retention_uses_the_calendar() {
    assert_eq!(retention_cutoff((2024, 3, 1)), Some((2024, 1, 31)));
    assert_eq!(retention_cutoff((2023, 3, 15)), Some((2023, 2, 13)));
    assert_eq!(retention_cutoff((2023, 2, 30)), None);
    assert_eq!(cleanup_message(0), None);
    assert_eq!(
        cleanup_message(4),
        Some("  Log cleanup: removed 4 expired log file(s) (>30d)".to_string())
    );
}

// ==================== command line ====================

#[test]
fn routes_and_command_words() {
    let args = |v: &[&str]| v.iter().map(|s| s.to_string()).collect::<Vec<String>>();
    assert_eq!(route_args(&args(&["sil"])), Route::NoArguments);
    assert_eq!(
        route_args(&args(&["sil", "--Start", "Foo"])),
        Route::Cli(args(&["--start", "Foo"]))
    );
    assert_eq!(route_args(&args(&["sil", "-M", "--start", "Foo"])), Route::Cli(args(&["--start", "Foo"])));
    assert_eq!(route_args(&args(&["sil", "-internal", "--updater"])), Route::Internal(args(&["--updater"])));
    assert_eq!(route_args(&args(&["sil", "HELP"])), Route::Help);
    assert_eq!(route_args(&args(&["sil", "--bogus"])), Route::Unknown("--bogus".into()));
    assert_eq!(command_word("--START"), "start");
    assert_eq!(command_word("install-updater"), "install-updater");
    assert_eq!(start_command(&["my svc"], true), Ok("my svc".to_string()));
    assert_eq!(start_command(&[], false), Err(CliExit::Usage("Usage: -m --start <service name>".into())));
    assert_eq!(
        start_command(&["my svc"], false),
        Err(CliExit::Error("Service not found in registry".into()))
    );
    assert!(matches!(service_argument(&["a/b"], "stop <service name>", true), Err(CliExit::Error(_))));
    assert_eq!(
        error_line("boom"),
        "Silanes Service Management Interface Error: boom"
    );
    assert_eq!(status_line("ok"), "Silanes Service Management Interface: ok");
}

#[test]
fn command_results_and_list() {
    assert_eq!(command_result(ServiceCommand::Status, Ok("Running")), Ok("Status: Running".into()));
    assert_eq!(command_result(ServiceCommand::Start, Err("denied")), Err("Service start failed: denied".into()));
    assert_eq!(command_result(ServiceCommand::Stop, Err("x")), Err("Failed to stop service".into()));
    assert_eq!(command_result(ServiceCommand::ForceDelete, Ok("")), Ok("Service force-deleted".into()));
    assert_eq!(
        command_result(ServiceCommand::Uninstall, Err("gone")),
        Err("Service unregistration failed: gone".into())
    );
    let names = vec!["a".to_string(), "b".to_string(), "c".to_string()];
    assert_eq!(list_output(&names, &vec![true, false, true]), vec!["a".to_string(), "c".to_string()]);
    assert_eq!(
        list_output(&names, &vec![false, false, false]),
        vec!["Silanes Service Management Interface: No registered services in registry".to_string()]
    );
}

#[test]
fn scm_waits_and_templates() {
    assert_eq!(wait_poll(SERVICE_RUNNING, SERVICE_RUNNING, true), Some(Ok(())));
    assert_eq!(
        wait_poll(SERVICE_RUNNING, SERVICE_STOPPED, true),
        Some(Err("Timeout waiting for service to start".into()))
    );
    assert_eq!(
        wait_poll(SERVICE_STOPPED, SERVICE_RUNNING, true),
        Some(Err("Timeout waiting for service to stop".into()))
    );
    assert_eq!(wait_poll(SERVICE_STOPPED, SERVICE_RUNNING, false), None);
    // each placeholder is replaced in turn, in the text the earlier ones produced
    assert_eq!(f("{0} and {1}", &["{1}", "x"]), "x and x");
    assert_eq!(f("no args", &[]), "no args");
}

#[test]
fn sddl_tokens() {
    for sid in ["SY", "BA", "DA", "EA", "SA", "S-1-5-18", "S-1-5-32-544", "S-1-5-21-1-2-3-500", "S-1-5-21-1-2-3-512"] {
        assert!(sddl_sid_is_administrative(sid), "{sid}");
    }
    for sid in ["AU", "BU", "WD", "S-1-5-21-1-2-3-1001", "S-1-5-32-545", "ba", "S-1-5-21-500x"] {
        assert!(!sddl_sid_is_administrative(sid), "{sid}");
    }
    for rights in ["FA", "FW", "M", "WD", "WO", "GA", "GW", "DC", "AD", "DT", "DE", "WDAC", "WOWN", "0x2", "0x1f01ff", "0x80000", "0x+2"] {
        assert!(sddl_rights_include_write(rights), "{rights}");
    }
    for rights in ["FR", "GR", "GX", "RC", "0x1", "0x120089", "0xzz", "0x", "fa"] {
        assert!(!sddl_rights_include_write(rights), "{rights}");
    }
}

#[test]
fn escaping_covers_c1_controls() {
    assert_eq!(escape_invisible("a\u{85}b"), "a\\x85b");
    assert_eq!(escape_invisible("\u{9f}\u{80}"), "\\x9F\\x80");
    assert_eq!(escape_invisible("\u{a0}\u{e9}"), "\u{a0}\u{e9}");
    assert!(!escape_invisible("x\u{1}\u{7f}\u{85}\u{9b}y").chars().any(|c| c.is_control()));
}

#[test]
fn null_dacl_counts_as_writable() {
    assert!(sddl_writable(Some("O:BAD:NO_ACCESS_CONTROL")));
    assert!(sddl_writable(Some("O:SYD:")));
    assert!(sddl_writable(Some("O:SYD:S:AI")));
    assert!(!sddl_writable(Some("O:BAD:PAI")));
    assert!(!sddl_writable(Some("O:BAD:P(A;;FA;;;SY)")));
}

#[test]
fn quoted_password_keys_are_dropped() {
    assert_eq!(
        deployed_config("service_name: my-svc\n\"service_password\": sup3r-secret\n"),
        "service_name: my-svc"
    );
    assert_eq!(deployed_config("  'Service_Password': x\nk: v"), "k: v");
    assert_eq!(deployed_config("service_passwords_hint: x"), "service_passwords_hint: x");
}

#[test]
fn failed_download_error_is_redacted() {
    let (_, outcome) = failed_download("https://user:pw@example.com/app.exe?token=abc", true, false, false);
    let e = outcome.unwrap_err();
    assert_eq!(e, "Download failed: https://example.com/app.exe");
    assert_eq!(redact_url("https://user:pw@example.com/a?t=1#f"), "https://example.com/a");
}

#[test]
fn registration_configuration_calls() {
    assert_eq!(
        registration_configs(86400, 60000, true),
        vec![
            ConfigCall::Description,
            ConfigCall::RestartOnFailure { reset_sec: 86400, delay_ms: 60000, restarts: 2 },
            ConfigCall::DelayedAutoStart,
        ]
    );
    assert_eq!(registration_configs(0, 60000, false), vec![ConfigCall::Description]);
}

#[test]
fn service_manager_reports() {
    let (p, r) = scm_step(ScmPhase::Registered, ScmEvent::Begin);
    assert_eq!((p, r), (ScmPhase::StartPending, Some((2, 3600000))));
    assert_eq!(scm_step(p, ScmEvent::StartDone(false)), (ScmPhase::Stopped, Some((1, 0))));
    let (p, r) = scm_step(p, ScmEvent::StartDone(true));
    assert_eq!((p, r), (ScmPhase::Running, Some((4, 0))));
    assert_eq!(scm_step(p, ScmEvent::Finished), (ScmPhase::Stopped, Some((1, 0))));
    let (p, r) = scm_step(p, ScmEvent::StopRequested);
    assert_eq!((p, r), (ScmPhase::StopPending, Some((3, 120000))));
    let (p, r) = scm_step(p, ScmEvent::Finished);
    assert_eq!((p, r), (ScmPhase::Stopped, Some((1, 0))));
    assert_eq!(scm_step(p, ScmEvent::Begin), (ScmPhase::Stopped, None));
}

#[test]
fn download_plan_refuses_before_touching_files() {
    let mut c = ServiceConfig::default();
    c.service_executable_path = "C:\\app\\a.exe".to_string();
    assert_eq!(silanes::launch::download_plan(&c, "C:\\svcs\\x"), Ok(None));
    c.download_url = Some("http://example.com/a.exe?k=1".to_string());
    assert!(silanes::launch::download_plan(&c, "C:\\svcs\\x").unwrap_err().contains("'http://example.com/a.exe'"));
    c.download_sha256 = Some("ab".to_string());
    c.download_to = Some("bin\\a.exe".to_string());
    assert_eq!(
        silanes::launch::download_plan(&c, "C:\\svcs\\x"),
        Ok(Some("C:\\svcs\\x\\bin\\a.exe".to_string()))
    );
}

#[test]
fn hook_waits_until_exit_or_timeout() {
    assert_eq!(hook_wait_step(ChildStatus::Exited(3), 10, 60000), HookWait::Done(Some(3)));
    assert_eq!(hook_wait_step(ChildStatus::Running, 59999, 60000), HookWait::Wait);
    assert_eq!(hook_wait_step(ChildStatus::Running, 60000, 60000), HookWait::Done(None));
    assert_eq!(hook_wait_step(ChildStatus::Unknown, 0, 60000), HookWait::Done(Some(-1)));
}

#[test]
fn start_modes_ignore_case() {
    assert_eq!(start_mode_lowered("delayed-auto"), (2, true));
    assert_eq!(start_mode_lowered("Manual"), (2, false));
    assert_eq!(parse_start_mode(Some("Delayed-Auto")), (2, true));
    assert_eq!(parse_start_mode(Some("MANUAL")), (3, false));
    assert_eq!(parse_start_mode(Some("Disabled")), (4, false));
}
