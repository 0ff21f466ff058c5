use instant_replay::config::OperatorConfig;
use instant_replay::devices::{
    list_devices, live_start_error_hint, parse_device_id, short_operator_error, to_video_devices,
    CaptureDevice, ParsedDevice,
};
use instant_replay::fsm::ReplayState;
use instant_replay::operator_ui::{send_cmd_with_feedback, show_toast, state_colors};
use instant_replay::setup_panel::{
    cancel_pin_dialog, format_label, handle_banner_press, request_unlock, submit_pin,
    SetupUiState, LONG_PRESS_MS,
};
use instant_replay::storage_monitor::{next_tick, StorageMonitor, FULL_FREE_BYTES, WARN_FREE_BYTES};
use instant_replay::types::{DisplayInfo, VideoFormat};

fn dev(id: &str) -> CaptureDevice {
    CaptureDevice { id: id.into(), display_name: format!("cam {id}"), backend: "v4l2".into() }
}

fn fmt(w: i32, h: i32, num: i32, den: i32, pf: &str) -> VideoFormat {
    VideoFormat { width: w, height: h, fps_num: num, fps_den: den, pixel_format: pf.into() }
}

#[test]
fn device_ids_are_classified() {
    assert_eq!(parse_device_id("test"), ParsedDevice::Test);
    assert_eq!(parse_device_id(" AUTO "), ParsedDevice::Auto);
    assert_eq!(parse_device_id(""), ParsedDevice::Auto);
    assert_eq!(parse_device_id("default"), ParsedDevice::Auto);
    assert_eq!(
        parse_device_id("v4l2:/dev/video0"),
        ParsedDevice::V4l2 { path: "/dev/video0".into() }
    );
    assert_eq!(
        parse_device_id("/dev/video2"),
        ParsedDevice::V4l2 { path: "/dev/video2".into() }
    );
    assert_eq!(parse_device_id("usb-cam"), ParsedDevice::Default);
}

#[test]
fn device_list_starts_with_test_pattern() {
    let l = list_devices(true, vec![dev("v4l2:/dev/video0")]);
    assert_eq!(l.len(), 1);
    assert_eq!(l[0].id, "test");
    assert_eq!(l[0].display_name, "Test Pattern (no camera)");
    let l = list_devices(false, vec![dev("v4l2:/dev/video0")]);
    assert_eq!(l.len(), 2);
    assert_eq!(l[1].id, "v4l2:/dev/video0");
    let v = to_video_devices(&l);
    assert_eq!(v[1].display_name, "cam v4l2:/dev/video0");
}

#[test]
fn error_hints() {
    assert_eq!(
        live_start_error_hint("Internal data stream error: not-negotiated"),
        "Format not supported — try MJPEG 1080p30 in Setup"
    );
    assert_eq!(
        live_start_error_hint("v4l2src: ioctl failed 32768"),
        "Invalid capture mode — unlock Setup, pick 1080p MJPEG"
    );
    assert_eq!(
        live_start_error_hint("Permission denied on /dev/video0"),
        "Camera permission denied — add user to video group"
    );
    assert_eq!(live_start_error_hint("  boom\nsecond line"), "boom");
    let long = "x".repeat(100);
    let short = short_operator_error(&long);
    assert_eq!(short.chars().count(), 78);
    assert!(short.ends_with('…'));
    assert_eq!(short_operator_error("capture not running"), "Capture not running — wait or unlock Setup to retry");
}

#[test]
fn setup_unlock_by_long_press() {
    let op = OperatorConfig::default();
    let mut s = SetupUiState::new();
    assert!(!s.is_unlocked(0));
    assert!(!handle_banner_press(&mut s, &op, true, 1_000));
    assert_eq!(s.banner_press_start_ms, Some(1_000));
    assert!(!handle_banner_press(&mut s, &op, true, 1_000 + LONG_PRESS_MS - 1));
    assert!(handle_banner_press(&mut s, &op, true, 1_000 + LONG_PRESS_MS));
    assert!(s.is_unlocked(1_000 + LONG_PRESS_MS));
    // 600 s of unlock
    assert!(s.is_unlocked(4_000 + 599_999));
    assert!(!s.is_unlocked(4_000 + 600_000));
    s.lock();
    assert!(!s.is_unlocked(5_000));
    // releasing resets the timer
    assert!(!handle_banner_press(&mut s, &op, true, 10_000));
    assert!(!handle_banner_press(&mut s, &op, false, 11_000));
    assert_eq!(s.banner_press_start_ms, None);
}

#[test]
fn setup_unlock_by_pin() {
    let op = OperatorConfig::default();
    let mut s = SetupUiState::new();
    assert!(!request_unlock(&mut s, &op, 0));
    assert!(s.show_pin_dialog);
    s.pin_buffer = "1234".into();
    assert!(!submit_pin(&mut s, &op, 0));
    assert!(s.show_pin_dialog);
    s.pin_buffer = "0000".into();
    assert!(submit_pin(&mut s, &op, 0));
    assert!(!s.show_pin_dialog);
    assert!(s.pin_buffer.is_empty());
    assert!(s.is_unlocked(599_999));
    let no_pin = OperatorConfig { setup_pin: String::new(), setup_unlock_seconds: 5, ..OperatorConfig::default() };
    let mut s = SetupUiState::new();
    assert!(request_unlock(&mut s, &no_pin, 0));
    // exactly the configured 5 s
    assert!(s.is_unlocked(4_999));
    assert!(!s.is_unlocked(5_000));
    s.show_pin_dialog = true;
    s.pin_buffer = "12".into();
    cancel_pin_dialog(&mut s);
    assert!(!s.show_pin_dialog && s.pin_buffer.is_empty());
}

#[test]
fn setup_selection_and_lists() {
    let mut s = SetupUiState::new();
    assert!(s.selection().is_none());
    s.refresh_devices(vec![dev("v4l2:/dev/video0"), dev("v4l2:/dev/video2")]);
    assert_eq!(s.selected_device_id().as_deref(), Some("v4l2:/dev/video0"));
    s.selected_device = 1;
    s.refresh_formats(vec![fmt(1920, 1080, 60, 2, "MJPEG"), fmt(1280, 720, 30, 0, "YUYV")]);
    s.set_displays(vec![DisplayInfo { id: 7, name: "HDMI".into(), primary: true, width: 1920, height: 1080 }]);
    let sel = s.selection().unwrap();
    assert_eq!(sel.device_id, "v4l2:/dev/video2");
    assert_eq!((sel.width, sel.height, sel.fps, sel.display_id), (1920, 1080, 30, 7));
    s.selected_format = 1;
    assert_eq!(s.selection().unwrap().fps, 30);
    s.selected_format = 5;
    s.refresh_formats(vec![fmt(640, 480, 30, 1, "YUYV")]);
    assert_eq!(s.selected_format, 0);
    s.selected_device = 9;
    s.refresh_devices(vec![dev("a")]);
    assert_eq!(s.selected_device, 0);
}

#[test]
fn mode_labels() {
    assert_eq!(format_label(&fmt(1920, 1080, 30, 1, "MJPEG")), "1920×1080 @ MJPEG 30 fps");
    assert_eq!(format_label(&fmt(1280, 720, 60, 2, "YUYV")), "1280×720 @ YUYV 30 fps");
    assert_eq!(format_label(&fmt(640, 480, 30, 0, "GREY")), "640×480 @ GREY 0 fps");
}

#[test]
fn storage_alarms() {
    let mut m = StorageMonitor::new();
    assert!(!m.disk_warning() && !m.disk_full() && !m.slow_disk());
    assert!(!m.record_free_space(WARN_FREE_BYTES));
    assert!(!m.disk_warning());
    assert!(!m.record_free_space(WARN_FREE_BYTES - 1));
    assert!(m.disk_warning() && !m.disk_full());
    assert!(m.record_free_space(FULL_FREE_BYTES - 1));
    assert!(m.disk_full());
    assert!(m.record_write_latency(2001));
    assert!(!m.record_free_space(1 << 40));
    assert!(m.disk_warning(), "slow writes keep the warning");
    assert!(!m.record_write_latency(2000));
    assert_eq!(next_tick(5), (6, true));
    assert_eq!(next_tick(6), (7, false));
    assert_eq!(next_tick(u32::MAX), (0, true));
}

#[test]
fn banner_colours_and_toasts() {
    assert_eq!(state_colors(ReplayState::NoSignal), ((139, 34, 34), (255, 255, 255)));
    assert_eq!(state_colors(ReplayState::ReturningToLive), ((139, 69, 19), (255, 255, 255)));
    assert_eq!(state_colors(ReplayState::Live), ((61, 90, 61), (255, 255, 255)));
    assert_eq!(send_cmd_with_feedback(false, "Marking…"), ("Engine stopped".to_string(), true));
    assert_eq!(send_cmd_with_feedback(true, "Marking…"), ("Marking…".to_string(), false));
    let mut toast = None;
    show_toast(&mut toast, "OK".into(), false, 42);
    assert_eq!(toast, Some(("OK".to_string(), false, 42)));
}

#[test]
fn unlock_for_lasts_the_configured_seconds() {
    let mut s = SetupUiState::new();
    s.show_pin_dialog = true;
    s.pin_buffer = "99".into();
    s.unlock_for(10, 1_000);
    assert!(s.is_unlocked(1_000));
    assert!(!s.show_pin_dialog);
    assert!(s.pin_buffer.is_empty());
    assert!(s.is_unlocked(10_999));
    assert!(!s.is_unlocked(11_000));
}

#[test]
fn banner_release_keeps_dialog_and_pin() {
    let op = OperatorConfig::default();
    let mut s = SetupUiState::new();
    s.show_pin_dialog = true;
    s.pin_buffer = "12".into();
    assert!(!handle_banner_press(&mut s, &op, true, 0));
    assert!(!handle_banner_press(&mut s, &op, false, 500));
    assert!(s.show_pin_dialog);
    assert_eq!(s.pin_buffer, "12");
    assert!(!s.is_unlocked(500));
    assert!(!handle_banner_press(&mut s, &op, true, 1_000));
    assert!(handle_banner_press(&mut s, &op, true, 4_000));
    assert!(s.pin_buffer.is_empty());
    assert!(!s.show_pin_dialog);
}
