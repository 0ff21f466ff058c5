use instant_replay::capture_source::{
    build_source_element, normalize_pixel_format, test_source, v4l2_io_mode, v4l2_source, PixelKind,
};
use instant_replay::pipeline::{
    buffer_encoder_element, build_pipeline_description, build_replay_description,
    headless_output_chain, path_for_gst, program_output_chain, program_sink_element,
};

#[test]
fn test_pattern_source() {
    assert_eq!(
        test_source(1280, 720, 30),
        "videotestsrc is-live=true pattern=ball ! video/x-raw,width=1280,height=720,framerate=30/1"
    );
}

#[test]
fn pixel_kinds() {
    assert_eq!(normalize_pixel_format("MJPEG"), PixelKind::Mjpeg);
    assert_eq!(normalize_pixel_format("image/jpeg"), PixelKind::Mjpeg);
    assert_eq!(normalize_pixel_format("H264"), PixelKind::H264);
    assert_eq!(normalize_pixel_format("YUYV"), PixelKind::Raw);
    assert_eq!(normalize_pixel_format("auto"), PixelKind::Raw);
}

#[test]
fn io_modes() {
    assert_eq!(v4l2_io_mode(None), "dmabuf");
    assert_eq!(v4l2_io_mode(Some(" mmap ")), "mmap");
    assert_eq!(v4l2_io_mode(Some("read")), "read");
    assert_eq!(v4l2_io_mode(Some("auto")), "auto");
    assert_eq!(v4l2_io_mode(Some("userptr")), "dmabuf");
}

#[test]
fn v4l2_sources_by_pixel_format() {
    assert_eq!(
        v4l2_source("/dev/video0", 1920, 1080, 30, "MJPEG", "dmabuf"),
        "v4l2src device=/dev/video0 io-mode=dmabuf ! image/jpeg,width=1920,height=1080,framerate=30/1 ! jpegdec"
    );
    assert_eq!(
        v4l2_source("/dev/video0", 1920, 1080, 30, "h264", "mmap"),
        "v4l2src device=/dev/video0 io-mode=mmap ! video/x-h264,width=1920,height=1080,framerate=30/1 ! h264parse ! avdec_h264"
    );
    assert_eq!(
        v4l2_source("/dev/video2", 640, 480, 60, "YUYV", "dmabuf"),
        "v4l2src device=/dev/video2 io-mode=dmabuf ! video/x-raw,width=640,height=480,framerate=60/1"
    );
}

#[test]
fn source_element_by_device_id() {
    assert_eq!(
        build_source_element("test", 1280, 720, 30, "auto", "dmabuf"),
        test_source(1280, 720, 30)
    );
    assert_eq!(
        build_source_element("v4l2:/dev/video0", 1920, 1080, 50, "MJPEG", "dmabuf"),
        v4l2_source("/dev/video0", 1920, 1080, 50, "MJPEG", "dmabuf")
    );
    assert_eq!(
        build_source_element("/dev/video4", 1920, 1080, 50, "MJPEG", "dmabuf"),
        v4l2_source("/dev/video4", 1920, 1080, 50, "MJPEG", "dmabuf")
    );
}

#[test]
fn program_sinks() {
    assert_eq!(program_sink_element(false), "videoconvert ! glimagesink name=program_sink sync=false");
    assert!(program_sink_element(true).contains("textoverlay name=status_overlay text=\"LIVE\""));
    assert_eq!(
        program_output_chain(false),
        "input-selector name=outsel ! videoconvert ! glimagesink name=program_sink sync=false"
    );
    assert_eq!(
        headless_output_chain(false),
        "input-selector name=outsel ! videoconvert ! fakesink name=program_sink sync=false"
    );
    assert!(headless_output_chain(true).ends_with("! fakesink name=program_sink sync=false"));
    assert_eq!(
        buffer_encoder_element(),
        "x264enc speed-preset=ultrafast tune=zerolatency key-int-max=60"
    );
}

#[test]
fn gst_paths_use_forward_slashes() {
    assert_eq!(path_for_gst("C:\\buf\\chunk_00001.mkv"), "C:/buf/chunk_00001.mkv");
    assert_eq!(path_for_gst("/buf/chunk_00001.mkv"), "/buf/chunk_00001.mkv");
}

#[test]
fn capture_pipeline_description() {
    let d = build_pipeline_description(
        "test", 1280, 720, 30, "auto", false, true, "/tmp/buf", 1, 20, "dmabuf",
    );
    let expected = "videotestsrc is-live=true pattern=ball ! video/x-raw,width=1280,height=720,framerate=30/1 \
! videoconvert ! videoscale ! video/x-raw,width=1280,height=720,framerate=30/1 \
! tee name=capture_tee \
capture_tee. ! queue name=live_queue leaky=downstream max-size-time=50000000 \
! valve name=live_valve drop=false \
! videoconvert ! input-selector name=outsel ! videoconvert ! fakesink name=program_sink sync=false \
capture_tee. ! queue max-size-buffers=120 max-size-time=0 \
! videoconvert ! x264enc speed-preset=ultrafast tune=zerolatency key-int-max=60 ! h264parse \
! splitmuxsink name=splitmux location=\"/tmp/buf/chunk_%05d.mkv\" muxer=matroskamux \
max-size-time=1000000000 max-files=22 async-finalize=false send-keyframe-requests=true";
    assert_eq!(d, expected);
    let d = build_pipeline_description(
        "v4l2:/dev/video0", 1920, 1080, 50, "MJPEG", true, false, "/var/buf/", 2, 20, "dmabuf",
    );
    assert!(d.starts_with("v4l2src device=/dev/video0 io-mode=dmabuf ! image/jpeg,"));
    assert!(d.contains("location=\"/var/buf/chunk_%05d.mkv\""));
    assert!(d.contains("max-size-time=2000000000 max-files=12 "));
    assert!(d.contains("glimagesink name=program_sink"));
}

#[test]
fn replay_descriptions() {
    assert_eq!(
        build_replay_description(&vec!["/b/chunk_00001.mkv".to_string()]),
        "filesrc location=\"/b/chunk_00001.mkv\" ! matroskademux ! h264parse ! avdec_h264 ! videoconvert ! queue name=replay_out"
    );
    assert_eq!(
        build_replay_description(&vec!["/b/a.mkv".to_string(), "/b/b.mkv".to_string()]),
        "filesrc location=\"/b/a.mkv\" ! matroskademux ! h264parse ! queue ! con. \
filesrc location=\"/b/b.mkv\" ! matroskademux ! h264parse ! queue ! con. \
concat name=con ! h264parse ! avdec_h264 ! videoconvert ! queue name=replay_out"
    );
}
