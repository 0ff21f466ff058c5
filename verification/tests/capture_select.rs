use instant_replay::capture_select::{
    auto_pick_device, best_format_score, best_node_for_card, build_resolved, format_score,
    format_matches_preference, is_grey_only_small, is_internal_platform_device,
    normalize_device_id, parse_resolution_pair, pick_venue_format, resolve_input,
    resolve_output_display, usable_formats, wants_auto_device, wants_auto_resolution,
    CaptureSelectError, MAX_CAPTURE_DIM, MAX_CAPTURE_FPS,
};
use instant_replay::config::InputConfig;
use instant_replay::devices::CaptureDevice;
use instant_replay::types::{DisplayInfo, VideoFormat};

fn fmt(w: i32, h: i32, fps: i32, pf: &str) -> VideoFormat {
    VideoFormat {
        width: w,
        height: h,
        fps_num: fps,
        fps_den: 1,
        pixel_format: pf.into(),
    }
}

fn dev(id: &str) -> CaptureDevice {
    CaptureDevice { id: id.into(), display_name: id.into(), backend: "v4l2".into() }
}

fn input(device_id: &str, resolution: &str, fps: u32, pf: &str) -> InputConfig {
    InputConfig {
        device_id: device_id.into(),
        resolution: resolution.into(),
        fps,
        pixel_format: pf.into(),
    }
}

#[test]
fn platform_filter() {
    assert!(is_internal_platform_device("pispbe"));
    assert!(is_internal_platform_device("rpi-hevc-dec"));
    assert!(!is_internal_platform_device("Logitech BRIO"));
}

#[test]
fn pick_venue_prefers_1080p30_mjpeg_over_yuyv_5fps() {
    let formats = vec![fmt(1920, 1080, 5, "YUYV"), fmt(1920, 1080, 30, "MJPEG")];
    let picked = pick_venue_format(&formats).unwrap();
    assert_eq!(picked.pixel_format, "MJPEG");
    assert_eq!(picked.fps_num, 30);
}

#[test]
fn pick_venue_prefers_1080p50_when_available() {
    let formats = vec![fmt(1920, 1080, 50, "MJPEG"), fmt(1280, 720, 30, "MJPEG")];
    let picked = pick_venue_format(&formats).unwrap();
    assert_eq!(picked.width, 1920);
    assert_eq!(picked.fps_num, 50);
}

#[test]
fn grey_small_format_filtered() {
    assert!(is_grey_only_small(&fmt(340, 340, 30, "GREY")));
    assert!(!is_grey_only_small(&fmt(1280, 720, 30, "MJPEG")));
}

#[test]
fn oversize_format_rejected_by_usable_filter() {
    let huge = fmt(4096, 2160, 30, "MJPEG");
    let formats = vec![huge.clone(), fmt(1920, 1080, 30, "MJPEG")];
    let filtered = usable_formats(&formats);
    assert_eq!(filtered.len(), 1);
    assert_eq!(filtered[0].width, 1920);
    assert!(filtered[0].width <= MAX_CAPTURE_DIM);
}

// ---------------------------------------------------------------------------

#[test]
fn platform_filter_is_case_insensitive() {
    assert!(is_internal_platform_device("BCM2835-ISP"));
    assert!(is_internal_platform_device("Video Codec"));
    assert!(!is_internal_platform_device("USB Video"));
}

#[test]
fn usable_filter_edges() {
    let formats = vec![
        fmt(640, 360, 30, "YUYV"),   // edge of minimum size
        fmt(320, 240, 30, "YUYV"),   // too small
        fmt(1280, 720, 121, "MJPEG"), // too fast
        fmt(1280, 720, MAX_CAPTURE_FPS, "MJPEG"),
        fmt(3840, 2160, 30, "MJPEG"),
        fmt(400, 400, 30, "grey"),
    ];
    let usable = usable_formats(&formats);
    let widths: Vec<i32> = usable.iter().map(|f| f.width).collect();
    assert_eq!(widths, vec![640, 1280, 3840]);
    let zero_den = VideoFormat { fps_den: 0, ..fmt(1280, 720, 500, "MJPEG") };
    assert_eq!(usable_formats(&vec![zero_den]).len(), 1);
}

#[test]
fn score_formula() {
    assert_eq!(format_score(&fmt(1920, 1080, 30, "MJPEG")), 1920 * 1080 * 30 + 1_000_000);
    assert_eq!(format_score(&fmt(1920, 1080, 30, "h264")), 1920 * 1080 * 30 + 1_000_000);
    assert_eq!(format_score(&fmt(640, 480, 30, "YUYV")), 640 * 480 * 30);
    assert_eq!(format_score(&fmt(640, 480, 0, "YUYV")), 640 * 480);
    let frac = VideoFormat { fps_den: 2, ..fmt(100, 100, 61, "NV12") };
    assert_eq!(format_score(&frac), 100 * 100 * 30);
    assert_eq!(best_format_score(&vec![]), 0);
    assert_eq!(
        best_format_score(&vec![fmt(640, 480, 30, "YUYV"), fmt(1280, 720, 30, "YUYV")]),
        1280 * 720 * 30
    );
}

#[test]
fn preference_matching() {
    let f = fmt(1920, 1080, 30, "mjpeg");
    assert!(format_matches_preference(&f, 1920, 1080, 30, "MJPEG"));
    assert!(!format_matches_preference(&f, 1920, 1080, 50, "MJPEG"));
    assert!(!format_matches_preference(&f, 1920, 1080, 30, "YUYV"));
}

#[test]
fn venue_pick_falls_back_to_best_score() {
    assert!(pick_venue_format(&vec![]).is_none());
    let formats = vec![fmt(800, 600, 20, "YUYV"), fmt(1024, 768, 15, "YUYV")];
    let picked = pick_venue_format(&formats).unwrap();
    assert_eq!(picked.width, 1024);
    // equal scores: the later one wins
    let tie = vec![fmt(800, 600, 20, "YUYV"), fmt(600, 800, 20, "YUYV")];
    assert_eq!(pick_venue_format(&tie).unwrap().width, 600);
}

#[test]
fn auto_pick_prefers_highest_score_first_on_ties() {
    let picked = auto_pick_device(vec![
        (dev("v4l2:/dev/video0"), vec![fmt(1280, 720, 30, "YUYV")]),
        (dev("v4l2:/dev/video2"), vec![fmt(1920, 1080, 30, "MJPEG")]),
        (dev("v4l2:/dev/video4"), vec![]),
        (dev("v4l2:/dev/video6"), vec![fmt(1920, 1080, 30, "MJPEG")]),
    ])
    .unwrap();
    assert_eq!(picked.0.id, "v4l2:/dev/video2");
    assert!(auto_pick_device(vec![(dev("a"), vec![])]).is_none());
    assert!(auto_pick_device(vec![]).is_none());
}

#[test]
fn best_node_for_card_filters_by_name() {
    let nodes = vec![
        ("/dev/video0".to_string(), "Cam".to_string(), vec![fmt(1280, 720, 30, "YUYV")]),
        ("/dev/video1".to_string(), "Cam".to_string(), vec![fmt(1920, 1080, 30, "MJPEG")]),
        ("/dev/video2".to_string(), "Other".to_string(), vec![fmt(3840, 2160, 60, "MJPEG")]),
    ];
    let (path, formats) = best_node_for_card("Cam", nodes).unwrap();
    assert_eq!(path, "/dev/video1");
    assert_eq!(formats.len(), 1);
    assert!(best_node_for_card("None", vec![]).is_none());
}

#[test]
fn auto_words() {
    assert!(wants_auto_device(""));
    assert!(wants_auto_device(" Auto "));
    assert!(wants_auto_device("DEFAULT"));
    assert!(!wants_auto_device("/dev/video0"));
    assert!(wants_auto_resolution(" AUTO"));
    assert!(!wants_auto_resolution("1920x1080"));
    assert_eq!(parse_resolution_pair("1280x720"), Some((1280, 720)));
    assert_eq!(parse_resolution_pair("1280"), None);
}

#[test]
fn device_id_normalization() {
    assert_eq!(normalize_device_id("/dev/video0"), "v4l2:/dev/video0");
    assert_eq!(normalize_device_id("v4l2:/dev/video0"), "v4l2:/dev/video0");
    assert_eq!(normalize_device_id("test"), "test");
    assert_eq!(normalize_device_id("usb-cam"), "usb-cam");
}

#[test]
fn build_resolved_uses_venue_for_auto_settings() {
    let formats = vec![fmt(1920, 1080, 30, "MJPEG")];
    let r = build_resolved("v4l2:/dev/video0", &input("auto", "auto", 0, "auto"), &formats);
    assert_eq!(
        (r.device_id.as_str(), r.width, r.height, r.fps, r.pixel_format.as_str()),
        ("v4l2:/dev/video0", 1920, 1080, 30, "MJPEG")
    );
    let r = build_resolved("d", &input("d", "1280x720", 25, "YUYV"), &formats);
    assert_eq!((r.width, r.height, r.fps, r.pixel_format.as_str()), (1280, 720, 25, "YUYV"));
    let r = build_resolved("d", &input("d", "bogus", 25, "YUYV"), &formats);
    assert_eq!((r.width, r.height), (1920, 1080));
    let r = build_resolved("d", &input("d", "auto", 0, "auto"), &vec![]);
    assert_eq!((r.width, r.height, r.fps, r.pixel_format.as_str()), (1280, 720, 30, "MJPEG"));
}

#[test]
fn resolve_input_paths() {
    let auto = Some((dev("v4l2:/dev/video2"), vec![fmt(1920, 1080, 30, "MJPEG")]));
    let r = resolve_input(&input("auto", "auto", 0, "auto"), &vec![], auto).unwrap();
    assert_eq!(r.device_id, "v4l2:/dev/video2");
    let err = resolve_input(&input("auto", "auto", 0, "auto"), &vec![], None).unwrap_err();
    assert_eq!(err, CaptureSelectError::NoCaptureDevice);
    assert!(err.message().starts_with("No USB capture device found"));
    let r = resolve_input(
        &input("/dev/video0", "auto", 0, "auto"),
        &vec![fmt(1280, 720, 60, "MJPEG")],
        None,
    )
    .unwrap();
    assert_eq!((r.device_id.as_str(), r.width, r.fps), ("v4l2:/dev/video0", 1280, 60));
    // configured device without usable modes falls back to automatic selection
    let auto = Some((dev("v4l2:/dev/video4"), vec![fmt(1280, 720, 30, "MJPEG")]));
    let r = resolve_input(&input("/dev/video0", "auto", 0, "auto"), &vec![], auto).unwrap();
    assert_eq!(r.device_id, "v4l2:/dev/video4");
}

#[test]
fn output_display_choice() {
    let d = |id: u32, w: i32, h: i32| DisplayInfo {
        id,
        name: format!("d{id}"),
        primary: id == 0,
        width: w,
        height: h,
    };
    assert_eq!(resolve_output_display(true, 7, &vec![]), 7);
    assert_eq!(resolve_output_display(true, 0, &vec![d(3, 800, 480)]), 3);
    let many = vec![d(0, 800, 480), d(1, 1920, 1080), d(2, 1280, 720)];
    assert_eq!(resolve_output_display(true, 0, &many), 1);
    assert_eq!(resolve_output_display(false, 0, &many), 0);
    let ties = vec![d(0, 800, 480), d(1, 1920, 1080), d(2, 1080, 1920)];
    assert_eq!(resolve_output_display(true, 0, &ties), 2);
    let only_operator = vec![d(5, 800, 480), d(5, 800, 480)];
    assert_eq!(resolve_output_display(true, 5, &only_operator), 5);
}

#[test]
fn resolve_input_only_yields_concrete_devices() {
    let cfg = input("usb-cam", "1920x1080", 30, "MJPEG");
    let modes = vec![fmt(1920, 1080, 30, "MJPEG")];
    assert_eq!(
        resolve_input(&cfg, &modes, None).unwrap_err(),
        CaptureSelectError::NoCaptureDevice
    );
    let auto = Some((dev("v4l2:/dev/video2"), vec![fmt(1280, 720, 30, "MJPEG")]));
    let r = resolve_input(&cfg, &modes, auto).unwrap();
    assert_eq!(r.device_id, "v4l2:/dev/video2");
    let odd = Some((dev("usb-cam"), vec![fmt(1280, 720, 30, "MJPEG")]));
    assert!(resolve_input(&input("auto", "auto", 0, "auto"), &vec![], odd).is_err());
}
