use instant_replay::capture_control::{
    bus_reaction, capture_geometry, capture_started, is_capture_source_element,
    is_capture_source_error, live_config, plan_runtime_request, replay_seek_plan, resolution_text,
    BusEvent, BusListeners, BusReaction, OverlayChange, ReplayStartError, RuntimeRequest,
    RuntimeState, RuntimeStep, SignalOverlay, StreamState,
};
use instant_replay::config::AppConfig;

const ALL: BusListeners = BusListeners { replay_finished: true, signal_lost: true, signal_restored: true };

#[test]
fn geometry_of_capture() {
    let mut cfg = AppConfig::default();
    assert_eq!(capture_geometry(&cfg), (1920, 1080, 1));
    cfg.input.resolution = "1280x720".into();
    cfg.input.fps = 50;
    assert_eq!(capture_geometry(&cfg), (1280, 720, 50));
    cfg.input.resolution = "wide".into();
    assert_eq!(capture_geometry(&cfg), (1920, 1080, 50));
    assert_eq!(resolution_text(1920, 1080), "1920x1080");
    let live = live_config(&cfg, 640, 480, 30);
    assert_eq!(live.input.resolution, "640x480");
    assert_eq!(live.input.fps, 30);
    assert_eq!(live.input.device_id, cfg.input.device_id);
}

#[test]
fn capture_sources_by_path() {
    assert!(is_capture_source_element("/GstPipeline:pipeline0/GstV4l2Src:v4l2src0"));
    assert!(is_capture_source_element("/GstPipeline:pipeline0/GstVideoTestSrc:videotestsrc0"));
    assert!(!is_capture_source_element("/GstPipeline:pipeline0/GstSplitMuxSink:splitmux"));
    assert!(!is_capture_source_error(None));
    assert!(is_capture_source_error(Some("/x/v4l2src1")));
}

#[test]
fn bus_messages() {
    let mut active = true;
    assert_eq!(bus_reaction(&mut active, &BusEvent::EndOfStream, ALL), BusReaction::ReplayFinished);
    assert!(!active);
    assert_eq!(bus_reaction(&mut active, &BusEvent::EndOfStream, ALL), BusReaction::Nothing);
    let err = BusEvent::Error { src_path: Some("/p/v4l2src0".into()) };
    assert_eq!(bus_reaction(&mut active, &err, ALL), BusReaction::SignalLost);
    let none = BusListeners { replay_finished: false, signal_lost: false, signal_restored: false };
    assert_eq!(bus_reaction(&mut active, &err, none), BusReaction::Nothing);
    let warn = BusEvent::Warning { src_path: Some("/p/queue0".into()) };
    assert_eq!(bus_reaction(&mut active, &warn, ALL), BusReaction::Nothing);
    let up = BusEvent::StateChanged { src_path: "/p/v4l2src0".into(), old: StreamState::Paused, current: StreamState::Playing };
    assert_eq!(bus_reaction(&mut active, &up, ALL), BusReaction::SignalRestored);
    let same = BusEvent::StateChanged { src_path: "/p/v4l2src0".into(), old: StreamState::Playing, current: StreamState::Playing };
    assert_eq!(bus_reaction(&mut active, &same, ALL), BusReaction::Nothing);
    assert_eq!(bus_reaction(&mut active, &BusEvent::Other, ALL), BusReaction::Nothing);
}

#[test]
fn overlay_follows_outages() {
    let mut o = SignalOverlay::new();
    assert_eq!(o.on_signal_restored(true), OverlayChange::Unchanged);
    assert_eq!(o.on_signal_lost(true), OverlayChange::Black);
    assert_eq!(o.on_signal_lost(true), OverlayChange::Unchanged);
    assert_eq!(o.on_signal_restored(true), OverlayChange::Live);
    assert_eq!(o.on_signal_lost(false), OverlayChange::Unchanged);
    assert!(o.had_signal_error);
}

#[test]
fn replay_positioning() {
    assert_eq!(replay_seek_plan(0, 0), Err(ReplayStartError::NoSegments));
    assert_eq!(ReplayStartError::NoSegments.message(), "no segments to replay");
    let p = replay_seek_plan(1, 1500).unwrap();
    assert!(p.allow_position && !p.offset_skipped && p.seek_failure_fatal);
    assert_eq!(p.start_ns, 1_500_000_000);
    let p = replay_seek_plan(3, 1500).unwrap();
    assert!(!p.allow_position && p.offset_skipped && !p.seek_failure_fatal);
    assert_eq!(p.start_ns, 0);
    assert_eq!(replay_seek_plan(1, u64::MAX).unwrap().start_ns, u64::MAX);
}

#[test]
fn runtime_requests() {
    let mut st = RuntimeState { capture_running: false, show_overlay: false, headless: true };
    assert_eq!(plan_runtime_request(&mut st, RuntimeRequest::ReplaySegments), vec![RuntimeStep::NotRunning]);
    assert!(plan_runtime_request(&mut st, RuntimeRequest::SignalLost).is_empty());
    let steps = plan_runtime_request(&mut st, RuntimeRequest::StartLive { show_status_overlay: true });
    assert_eq!(steps, vec![RuntimeStep::StartCapture { headless: true, overlay_live: true }]);
    capture_started(&mut st);
    assert!(st.capture_running && st.show_overlay);
    assert_eq!(
        plan_runtime_request(&mut st, RuntimeRequest::ReturnLive),
        vec![RuntimeStep::ReturnToLive { show_overlay: true }]
    );
    let steps = plan_runtime_request(&mut st, RuntimeRequest::StartLive { show_status_overlay: false });
    assert_eq!(
        steps,
        vec![RuntimeStep::StopCapture, RuntimeStep::StartCapture { headless: true, overlay_live: false }]
    );
    assert!(!st.capture_running);
    capture_started(&mut st);
    assert_eq!(
        plan_runtime_request(&mut st, RuntimeRequest::Stop),
        vec![RuntimeStep::StopCapture, RuntimeStep::CloseWindow]
    );
    assert_eq!(plan_runtime_request(&mut st, RuntimeRequest::Shutdown), vec![RuntimeStep::CloseWindow]);
}
