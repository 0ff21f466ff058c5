use instant_replay::format_probe::{
    caps_to_formats, dedupe_fractions, filter_and_sort_formats, formats_from_caps,
    framerate_values, int_values, preferred_fallback_formats, probe_formats, probe_target,
    structure_to_formats, CapsStructure, FractionField, IntField,
};
use instant_replay::types::VideoFormat;

fn fmt(w: i32, h: i32, fps: i32, pf: &str) -> VideoFormat {
    VideoFormat { width: w, height: h, fps_num: fps, fps_den: 1, pixel_format: pf.into() }
}

fn modes(v: &[VideoFormat]) -> Vec<(i32, i32, i32, i32, String)> {
    v.iter().map(|f| (f.width, f.height, f.fps_num, f.fps_den, f.pixel_format.clone())).collect()
}

fn caps(name: &str, format: Option<&str>, w: IntField, h: IntField, r: FractionField) -> CapsStructure {
    CapsStructure { name: name.into(), format: format.map(String::from), width: w, height: h, framerate: r }
}

#[test]
fn fallback_list_is_the_preferred_modes() {
    let f = preferred_fallback_formats();
    assert_eq!(f.len(), 8);
    assert_eq!(modes(&f[..1]), vec![(1920, 1080, 60, 1, "auto".to_string())]);
    assert_eq!((f[7].width, f[7].height, f[7].fps_num), (640, 480, 30));
}

#[test]
fn field_values() {
    assert_eq!(int_values(IntField::Value(640)), vec![640]);
    assert_eq!(int_values(IntField::Range { min: 160, max: 1920 }), vec![1920, 160]);
    assert_eq!(int_values(IntField::Range { min: 720, max: 720 }), vec![720]);
    assert!(int_values(IntField::Missing).is_empty());
    assert_eq!(framerate_values(FractionField::Value(30000, 1001)), vec![(30000, 1001)]);
    assert_eq!(
        framerate_values(FractionField::Range { min_num: 1, min_den: 1, max_num: 60, max_den: 1 }),
        vec![(60, 1), (1, 1)]
    );
    assert_eq!(
        framerate_values(FractionField::Range { min_num: 30, min_den: 1, max_num: 30, max_den: 1 }),
        vec![(30, 1)]
    );
    assert_eq!(framerate_values(FractionField::Missing), vec![(60, 1), (50, 1), (30, 1)]);
    assert_eq!(dedupe_fractions(vec![(30, 1), (60, 1), (30, 1), (60, 2)]), vec![(30, 1), (60, 1), (60, 2)]);
}

#[test]
fn structures_to_modes() {
    let s = caps("image/jpeg", None, IntField::Value(1920), IntField::Value(1080),
        FractionField::Range { min_num: 30, min_den: 1, max_num: 60, max_den: 1 });
    assert_eq!(
        modes(&structure_to_formats(&s)),
        vec![(1920, 1080, 60, 1, "MJPEG".to_string()), (1920, 1080, 30, 1, "MJPEG".to_string())]
    );
    let s = caps("video/x-raw", Some("YUY2"), IntField::Range { min: 640, max: 1280 },
        IntField::Value(720), FractionField::Value(0, 1));
    assert!(structure_to_formats(&s).is_empty(), "zero rate is dropped");
    let s = caps("video/x-raw", None, IntField::Range { min: 640, max: 1280 },
        IntField::Value(480), FractionField::Value(25, 1));
    assert_eq!(
        modes(&structure_to_formats(&s)),
        vec![(1280, 480, 25, 1, "auto".to_string()), (640, 480, 25, 1, "auto".to_string())]
    );
    let s = caps("audio/x-raw", None, IntField::Value(1), IntField::Value(1), FractionField::Missing);
    assert!(structure_to_formats(&s).is_empty());
    let h264 = caps("video/x-h264", Some("x"), IntField::Value(1920), IntField::Value(1080), FractionField::Missing);
    assert_eq!(structure_to_formats(&h264).len(), 3);
    assert_eq!(structure_to_formats(&h264)[0].pixel_format, "H264");
    let all = caps_to_formats(&vec![s, h264]);
    assert_eq!(all.len(), 3);
}

#[test]
fn ordering_puts_preferred_first() {
    let formats = vec![
        fmt(640, 480, 30, "YUYV"),
        fmt(1920, 1080, 30, "MJPEG"),
        fmt(800, 600, 20, "YUYV"),
        fmt(1920, 1080, 30, "MJPEG"),
        fmt(1920, 1080, 60, "MJPEG"),
    ];
    let out = filter_and_sort_formats(formats);
    assert_eq!(
        modes(&out),
        vec![
            (1920, 1080, 60, 1, "MJPEG".to_string()),
            (1920, 1080, 30, 1, "MJPEG".to_string()),
            (640, 480, 30, 1, "YUYV".to_string()),
            (800, 600, 20, 1, "YUYV".to_string()),
        ]
    );
}

#[test]
fn ordering_without_preferred_is_descending_and_capped() {
    let formats: Vec<VideoFormat> = (1..=20).map(|i| fmt(100 + i, 100, 15, "YUYV")).collect();
    let out = filter_and_sort_formats(formats);
    assert_eq!(out.len(), 16);
    assert_eq!(out[0].width, 120);
    assert_eq!(out[15].width, 105);
    // stable among equal keys
    let out = filter_and_sort_formats(vec![fmt(800, 600, 20, "A"), fmt(800, 600, 20, "B")]);
    assert_eq!(out[0].pixel_format, "A");
    assert_eq!(out[1].pixel_format, "B");
}

#[test]
fn others_after_preferred_are_capped_at_twelve() {
    let mut formats: Vec<VideoFormat> = (1..=20).map(|i| fmt(100 + i, 100, 15, "YUYV")).collect();
    formats.push(fmt(1280, 720, 30, "MJPEG"));
    let out = filter_and_sort_formats(formats);
    assert_eq!(out.len(), 13);
    assert_eq!(out[0].width, 1280);
    assert_eq!(out[1].width, 120);
}

#[test]
fn probe_decisions() {
    assert_eq!(probe_target("test"), None);
    assert_eq!(probe_target("auto"), None);
    assert_eq!(probe_target("v4l2:/dev/video0").as_deref(), Some("/dev/video0"));
    assert_eq!(probe_target("/dev/video2").as_deref(), Some("/dev/video2"));
    assert_eq!(probe_formats("test", None).len(), 8);
    assert_eq!(probe_formats("v4l2:/dev/video0", None).len(), 8);
    assert_eq!(formats_from_caps(Some(vec![])).len(), 8);
    let c = vec![caps("image/jpeg", None, IntField::Value(1280), IntField::Value(720), FractionField::Value(30, 1))];
    let out = probe_formats("v4l2:/dev/video0", Some(c));
    assert_eq!(modes(&out), vec![(1280, 720, 30, 1, "MJPEG".to_string())]);
}
