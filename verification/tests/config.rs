use instant_replay::config::{
    config_dir, default_buffer_path, AppConfig, ApplianceConfig, HotkeyConfig, InputConfig,
    OperatorConfig, OutputConfig, ReplaySettings, StorageConfig,
};

#[test]
fn default_replay_mode_is_marked() {
    let cfg = AppConfig::default();
    assert_eq!(cfg.replay.mode, "marked");
}

#[test]
fn default_appliance_autostart() {
    let cfg = AppConfig::default();
    assert!(cfg.appliance.enabled);
    assert!(cfg.appliance.autostart_live);
}

#[test]
fn default_input_auto_detect() {
    let cfg = AppConfig::default();
    assert_eq!(cfg.input.device_id, "auto");
    assert_eq!(cfg.input.resolution, "auto");
    assert_eq!(cfg.input.fps, 0);
    assert!(cfg.output.auto_display);
}

#[test]
fn section_defaults() {
    let op = OperatorConfig::default();
    assert!(op.enabled && !op.fullscreen);
    assert_eq!((op.width, op.height, op.display_id), (800, 480, 0));
    assert_eq!(op.setup_pin, "0000");
    assert_eq!(op.setup_unlock_seconds, 600);
    let out = OutputConfig::default();
    assert!(out.fullscreen && !out.show_status_overlay);
    let r = ReplaySettings::default();
    assert_eq!((r.buffer_seconds, r.default_replay_seconds, r.chunk_seconds), (20, 10, 1));
    let st = StorageConfig::default();
    assert_eq!(st.buffer_path, "/var/lib/instant-replay/buffer");
    assert!(st.auto_clean_on_start);
    let hk = HotkeyConfig::default();
    assert_eq!(
        [hk.mark, hk.replay, hk.replay_last, hk.return_live, hk.clear_mark],
        ["M", "R", "Space", "L", "C"].map(String::from)
    );
    let ap = ApplianceConfig::default();
    assert!(ap.enabled);
    let inp = InputConfig::default();
    assert_eq!(inp.pixel_format, "auto");
    assert_eq!(default_buffer_path(), "/var/lib/instant-replay/buffer");
    assert_eq!(config_dir(), "/etc/instant-replay");
}

#[test]
fn config_paths() {
    assert_eq!(AppConfig::config_path_toml(), "/etc/instant-replay/config.toml");
    assert_eq!(
        AppConfig::config_path_json_legacy(Some("/home/op")),
        "/home/op/.config/instant-replay/config.json"
    );
    assert_eq!(
        AppConfig::config_path_json_legacy(Some("/root/")),
        "/root/.config/instant-replay/config.json"
    );
    assert_eq!(
        AppConfig::config_path_json_legacy(None),
        "/home/pi/.config/instant-replay/config.json"
    );
}

#[test]
fn parse_resolution_of_config() {
    let mut cfg = AppConfig::default();
    assert_eq!(cfg.parse_resolution(), None);
    cfg.input.resolution = " 1920x1080 ".into();
    assert_eq!(cfg.parse_resolution(), Some((1920, 1080)));
    cfg.input.resolution = "AUTO".into();
    assert_eq!(cfg.parse_resolution(), None);
    cfg.input.resolution = "".into();
    assert_eq!(cfg.parse_resolution(), None);
    cfg.input.resolution = "1920x1080x2".into();
    assert_eq!(cfg.parse_resolution(), None);
    cfg.input.resolution = "1920*1080".into();
    assert_eq!(cfg.parse_resolution(), None);
    cfg.input.resolution = "wide x 1080".into();
    assert_eq!(cfg.parse_resolution(), None);
}
