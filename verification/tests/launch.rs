use instant_replay::config::AppConfig;
use instant_replay::launch::{
    apply_setup_selection, apply_test_mode, autostart_plan, http_enabled_by_default,
    http_port_from_env, lock_path, log_dir_candidates, program_output_mode, should_use_headless,
    show_operator_ui, shows_ok_toast, start_live_config, AutostartPlan, LockError, OperatorCmd,
    ProgramOutputMode,
};
use instant_replay::setup_panel::SetupSelection;

#[test]
fn test_mode_overrides() {
    let mut cfg = AppConfig::default();
    apply_test_mode(&mut cfg, false);
    assert_eq!(cfg.input.device_id, "auto");
    apply_test_mode(&mut cfg, true);
    assert_eq!(cfg.input.device_id, "test");
    assert_eq!(cfg.storage.buffer_path, "/tmp/instant-replay/buffer");
    assert!(!cfg.appliance.autostart_live);
}

#[test]
fn headless_detection() {
    assert!(should_use_headless(true, true, Some(":0")));
    assert!(!should_use_headless(false, true, Some(":0")));
    assert!(should_use_headless(false, true, Some("  ")));
    assert!(should_use_headless(false, true, None));
    assert!(!should_use_headless(false, false, None));
    assert_eq!(program_output_mode(true, false, true), ProgramOutputMode::Headless);
    assert_eq!(program_output_mode(false, true, true), ProgramOutputMode::Headless);
    assert_eq!(program_output_mode(false, false, true), ProgramOutputMode::OperatorUi);
    assert_eq!(program_output_mode(false, false, false), ProgramOutputMode::ProgramOnly);
    assert!(show_operator_ui(true, false, false));
    assert!(!show_operator_ui(true, false, true));
}

#[test]
fn boot_autostart() {
    let cfg = AppConfig::default();
    assert_eq!(autostart_plan(false, &cfg, false, false), AutostartPlan::FromConfig);
    assert_eq!(autostart_plan(false, &cfg, true, false), AutostartPlan::SkipNoDisplay);
    assert_eq!(autostart_plan(true, &cfg, false, true), AutostartPlan::TestPattern);
    let mut off = AppConfig::default();
    off.appliance.autostart_live = false;
    assert_eq!(autostart_plan(true, &off, false, false), AutostartPlan::Off);
    off.appliance.autostart_live = true;
    off.appliance.enabled = false;
    assert_eq!(autostart_plan(false, &off, false, false), AutostartPlan::Off);
    assert_eq!(autostart_plan(true, &off, false, false), AutostartPlan::FromConfig);
}

#[test]
fn http_settings() {
    assert_eq!(http_port_from_env(None), 8080);
    assert_eq!(http_port_from_env(Some("9090")), 9090);
    assert_eq!(http_port_from_env(Some("70000")), 8080);
    assert_eq!(http_port_from_env(Some("x")), 8080);
    assert!(http_enabled_by_default(false, true, false, None));
    assert!(!http_enabled_by_default(true, true, true, Some("0")));
    assert!(!http_enabled_by_default(true, true, true, Some("FALSE")));
    assert!(http_enabled_by_default(true, false, false, Some("1")));
    assert!(!http_enabled_by_default(false, false, false, None));
}

#[test]
fn log_dirs_and_lock() {
    assert_eq!(log_dir_candidates(Some("/var/log/ir"), Some("/home/op")), vec!["/var/log/ir".to_string()]);
    assert_eq!(
        log_dir_candidates(None, Some("/home/op")),
        vec![
            "/etc/instant-replay/logs".to_string(),
            "/home/op/.config/instant-replay/logs".to_string(),
            "/tmp/instant-replay/logs".to_string()
        ]
    );
    assert_eq!(log_dir_candidates(None, None)[1], "/tmp/.config/instant-replay/logs");
    assert_eq!(lock_path(), "/run/instant-replay/replay-engine.lock");
    assert_eq!(LockError::from_lock_failure(true, "x".into()), LockError::AlreadyRunning);
    assert_eq!(
        LockError::AlreadyRunning.message(),
        "replay-engine already running (stop: sudo systemctl stop replay-engine)"
    );
    assert_eq!(LockError::from_lock_failure(false, "denied".into()).message(), "engine lock: denied");
}

#[test]
fn operator_commands() {
    assert!(shows_ok_toast(OperatorCmd::ApplySetup));
    assert!(shows_ok_toast(OperatorCmd::RefreshSetup));
    assert!(!shows_ok_toast(OperatorCmd::Mark));
    let cfg = AppConfig::default();
    let sel = SetupSelection {
        device_id: "v4l2:/dev/video0".into(),
        width: 1920,
        height: 1080,
        fps: 50,
        pixel_format: "MJPEG".into(),
        display_id: 2,
    };
    let c = apply_setup_selection(&cfg, &sel);
    assert_eq!(c.input.device_id, "v4l2:/dev/video0");
    assert_eq!(c.input.resolution, "1920x1080");
    assert_eq!((c.input.fps, c.output.display_id), (50, 2));
    assert!(c.output.fullscreen);
    let c = start_live_config(&cfg, "test".into(), 1280, 720, 30, "auto".into(), 1, false);
    assert_eq!(c.input.resolution, "1280x720");
    assert!(!c.output.fullscreen);
    assert_eq!(c.output.display_id, 1);
}
