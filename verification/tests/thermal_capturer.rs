use std::time::Instant;
use thermal_viewer::camera_adapter::{
    capture_from, CameraAdapter, DecodeError, KnownCamera, PayloadLayout,
};
use thermal_viewer::color_image::Rgba;
use thermal_viewer::dynamic_range_curve::DynamicRangeCurve;
use thermal_viewer::fixed_point::FACTOR_ONE;
use thermal_viewer::gizmos::{Gizmo, GizmoError, GizmoKind, GizmoResult};
use thermal_viewer::recorders::image_recorder::ImageRecorder;
use thermal_viewer::recorders::recorder::{
    drop_finished, feed_recorder, feed_recorders, Recorder, RecorderError, RecorderState,
    RecorderStreamParams,
};
use thermal_viewer::temperature::{Temp, TempRange};
use thermal_viewer::thermal_capturer::{
    CaptureError, CapturerPhase, LoopAction, ThermalCapturerCmd, ThermalCapturerCtx,
    ThermalCapturerResult, ThermalCapturerSettings, HISTOGRAM_BUCKETS,
};
use thermal_viewer::thermal_data::{ThermalData, ThermalDataPos};
use thermal_viewer::thermal_gradient::{ThermalGradient, ThermalGradientPoint};
use thermal_viewer::types::image_rotation::ImageRotation;
use thermal_viewer::types::media_formats::ImageFormat;

/// A sink for tests: keeps its state like a snapshot or like a video, and
/// notes what it was asked to do.
#[derive(Clone, Debug)]
struct Sink {
    snapshot: ImageRecorder,
    continuous: bool,
    fail_start: bool,
    fail_frames: bool,
    started_with: Vec<RecorderStreamParams>,
    frames: Vec<(usize, usize)>,
    stops: usize,
}

impl Sink {
    fn snapshot() -> Sink {
        Sink {
            snapshot: ImageRecorder::new("out".to_string(), "Shot".to_string(), ImageFormat::Png),
            continuous: false,
            fail_start: false,
            fail_frames: false,
            started_with: Vec::new(),
            frames: Vec::new(),
            stops: 0,
        }
    }

    fn video() -> Sink {
        Sink { continuous: true, ..Sink::snapshot() }
    }
}

impl Recorder for Sink {
    fn start(&mut self, params: RecorderStreamParams) -> Result<(), RecorderError> {
        self.started_with.push(params);
        if self.fail_start {
            return Err(RecorderError { message: "cannot start".to_string() });
        }
        self.snapshot.start(params)
    }

    fn process_result(&mut self, result: &ThermalCapturerResult) -> Result<(), RecorderError> {
        self.frames.push((result.image.width, result.image.height));
        if self.fail_frames {
            return Err(RecorderError { message: "cannot write".to_string() });
        }
        if !self.continuous {
            let name = self.snapshot.file_name("2024-05-06_07-08-09");
            self.snapshot.frame_saved(format!("out/{}", name));
        }
        Ok(())
    }

    fn stop(&mut self) -> Result<(), RecorderError> {
        self.stops += 1;
        self.snapshot.stop()
    }

    fn spec_state(&self) -> RecorderState {
        self.snapshot.state()
    }

    fn state(&self) -> RecorderState {
        self.snapshot.state()
    }

    fn files_created(&self) -> Vec<String> {
        self.snapshot.files_created()
    }

    fn is_continuous(&self) -> bool {
        self.continuous
    }
}

fn grey_ramp() -> ThermalGradient {
    ThermalGradient::new(
        7,
        "grey".to_string(),
        vec![
            ThermalGradientPoint::from_rgbv(0, 0, 0, 0),
            ThermalGradientPoint::from_rgbv(255, 255, 255, FACTOR_ONE),
        ],
    )
}

fn probes() -> Gizmo {
    let mut root = Gizmo::new_root(vec![]);
    root.push_child(GizmoKind::MaxTemp, "Max".to_string(), Rgba::from_rgb(255, 0, 0));
    root.push_child(GizmoKind::MinTemp, "Min".to_string(), Rgba::from_rgb(0, 0, 255));
    root.push_child(
        GizmoKind::TempAt { pos: ThermalDataPos::new(0, 1) },
        "Spot".to_string(),
        Rgba::from_rgb(0, 255, 0),
    );
    root
}

fn settings(manual: TempRange) -> ThermalCapturerSettings<Sink> {
    ThermalCapturerSettings {
        auto_range: false,
        manual_range: manual,
        gradient: grey_ramp(),
        rotation: ImageRotation::Clockwise0,
        gizmo: probes(),
        dynamic_range_curve: DynamicRangeCurve::default(),
        recorders: Vec::new(),
        ambient: Temp::from_celsius(20_000),
        emissivity: FACTOR_ONE,
    }
}

fn range(min: i64, max: i64) -> TempRange {
    TempRange::new(Temp::new(min), Temp::new(max))
}

fn frame_data() -> ThermalData {
    // 3 wide, 2 high.
    ThermalData::new(
        3,
        2,
        [18000, 18500, 19000, 17500, 20000, 18250].iter().map(|&u| Temp::new(u)).collect(),
    )
}

fn ctx(s: ThermalCapturerSettings<Sink>) -> ThermalCapturerCtx<Sink> {
    ThermalCapturerCtx::new(s, "P2".to_string(), 25)
}

fn grey(v: u8) -> Rgba {
    Rgba::from_rgb(v, v, v)
}

#[test]
fn a_frame_is_painted_over_the_manual_range() {
    let mut c = ctx(settings(range(17000, 21000)));
    let now = Instant::now();
    let frame = c.compose_frame(frame_data(), 0, now).unwrap();
    assert_eq!(frame.image_range, range(17000, 21000));
    assert_eq!((frame.image.width, frame.image.height), (3, 2));
    // The place in the range, through the default curve, on the grey ramp.
    assert_eq!(frame.image.pixels, vec![grey(63), grey(95), grey(127), grey(31), grey(191), grey(79)]);
    assert_eq!(frame.capture_time, now);
    assert_eq!(frame.camera_short_name, "P2");
    assert_eq!(frame.reported_fps, 25);
    assert_eq!(frame.real_fps, 0);
}

#[test]
fn a_frame_holds_a_histogram_of_a_hundred_buckets() {
    let mut c = ctx(settings(range(17000, 21000)));
    let frame = c.compose_frame(frame_data(), 0, Instant::now()).unwrap();
    assert_eq!(frame.histogram.points.len(), HISTOGRAM_BUCKETS);
    assert_eq!(HISTOGRAM_BUCKETS, 100);
    let counts: Vec<(usize, usize)> = frame
        .histogram
        .points
        .iter()
        .enumerate()
        .filter(|(_, p)| p.count > 0)
        .map(|(i, p)| (i, p.count))
        .collect();
    // Buckets of 40 units from 17000 on.
    assert_eq!(counts, vec![(12, 1), (25, 1), (31, 1), (37, 1), (50, 1), (75, 1)]);
    let shares: i64 = frame.histogram.points.iter().map(|p| p.factor).sum();
    assert_eq!(shares, 6 * 166_666);
    assert_eq!(frame.histogram.points[0].temperature, Temp::new(17020));
    assert_eq!(frame.histogram.points[99].temperature, Temp::new(20980));
}

#[test]
fn the_histogram_spans_the_captured_and_the_displayed_range() {
    let mut c = ctx(settings(range(18000, 19000)));
    let frame = c.compose_frame(frame_data(), 0, Instant::now()).unwrap();
    // Joined with the captured range the span is 17500 to 20000: buckets of 25.
    assert_eq!(frame.histogram.points[0].temperature, Temp::new(17512));
    assert_eq!(frame.histogram.points[0].count, 1);
    let total: usize = frame.histogram.points.iter().map(|p| p.count).sum();
    // The warmest pixel lies at the upper end, which belongs to no bucket.
    assert_eq!(total, 5);
}

#[test]
fn a_frame_holds_what_each_probe_found() {
    let s = settings(range(17000, 21000));
    let ids: Vec<u128> = s.gizmo.children_ref().unwrap().iter().map(|g| g.uuid).collect();
    let mut c = ctx(s);
    let frame = c.compose_frame(frame_data(), 0, Instant::now()).unwrap();
    assert_eq!(frame.gizmo_results.len(), 3);
    assert_eq!(
        frame.gizmo_results[&ids[0]],
        GizmoResult { temperature: Temp::new(20000), pos: ThermalDataPos::new(1, 1) }
    );
    assert_eq!(
        frame.gizmo_results[&ids[1]],
        GizmoResult { temperature: Temp::new(17500), pos: ThermalDataPos::new(0, 1) }
    );
    assert_eq!(
        frame.gizmo_results[&ids[2]],
        GizmoResult { temperature: Temp::new(17500), pos: ThermalDataPos::new(0, 1) }
    );
}

#[test]
fn a_frame_is_corrected_and_then_turned() {
    let mut s = settings(range(17000, 21000));
    s.rotation = ImageRotation::Clockwise90;
    s.emissivity = 950_000;
    s.ambient = Temp::new(19000);
    s.gizmo = Gizmo::new_root(vec![]);
    s.gizmo.push_child(GizmoKind::MaxTemp, "Max".to_string(), Rgba::from_rgb(255, 0, 0));
    let id = s.gizmo.children_ref().unwrap()[0].uuid;
    let mut c = ctx(s);
    let data = ThermalData::new(2, 1, vec![Temp::new(20000), Temp::new(17000)]);
    let frame = c.compose_frame(data, 0, Instant::now()).unwrap();
    assert_eq!((frame.image.width, frame.image.height), (1, 2));
    // 20000 is corrected to 20048 and lies, after the turn, on top.
    assert_eq!(
        frame.gizmo_results[&id],
        GizmoResult { temperature: Temp::new(20048), pos: ThermalDataPos::new(0, 0) }
    );
}

#[test]
fn the_range_controller_sets_the_range_when_auto_range_is_on() {
    let mut s = settings(range(0, 1));
    s.auto_range = true;
    let mut c = ctx(s);
    let first = c.compose_frame(frame_data(), 0, Instant::now()).unwrap();
    // A controller at rest shows 0 to 50 degrees Celsius.
    assert_eq!(first.image_range, range(17482, 20682));
    assert_eq!(first.image.pixels[4], grey(200));
    // The frame spans 17500 to 20000, which leaves too much room at the top:
    // after 900 ms of that the range closes in, until the room is small enough.
    let mut last = first.image_range;
    for _ in 0..15 {
        last = c.compose_frame(frame_data(), 100_000, Instant::now()).unwrap().image_range;
    }
    assert_eq!(last, range(17437, 20087));
    assert!(last.contains_range(range(17500, 20000)));
    assert_eq!(c.auto_range_controller.current(), range(17437, 20087));
}

#[test]
fn the_range_controller_is_kept_going_when_auto_range_is_off() {
    let mut c = ctx(settings(range(17000, 21000)));
    for _ in 0..15 {
        let frame = c.compose_frame(frame_data(), 100_000, Instant::now()).unwrap();
        assert_eq!(frame.image_range, range(17000, 21000));
    }
    assert_eq!(c.auto_range_controller.current(), range(17437, 20087));
}

#[test]
fn a_root_that_is_no_root_gives_no_frame() {
    let mut s = settings(range(17000, 21000));
    s.gizmo = Gizmo::new(GizmoKind::MaxTemp, "Max".to_string(), Rgba::from_rgb(1, 1, 1));
    let mut c = ctx(s);
    assert_eq!(
        c.compose_frame(frame_data(), 0, Instant::now()).err(),
        Some(GizmoError::RootHasNoChildren)
    );
    let started = Instant::now();
    assert_eq!(
        c.produce_result(frame_data(), started).err(),
        Some(CaptureError::Probe(GizmoError::RootHasNoChildren))
    );
}

#[test]
fn colours_follow_range_curve_and_gradient() {
    let s = settings(range(1000, 2000));
    assert_eq!(s.temp_to_color(Temp::new(1500), None), grey(127));
    assert_eq!(s.temp_to_color(Temp::new(1500), Some(range(1500, 2500))), grey(0));
    assert_eq!(s.temp_to_color(Temp::new(0), None), grey(0));
    assert_eq!(s.temp_to_color(Temp::new(5000), None), grey(255));
    assert_eq!(s.temp_to_color(Temp::new(2000), None), grey(255));
}

#[test]
fn of_settings_sent_in_a_row_only_the_last_is_seen() {
    let mut c = ctx(settings(range(17000, 21000)));
    let first = settings(range(1, 2));
    let mut second = settings(range(18000, 19000));
    second.rotation = ImageRotation::Clockwise180;
    let second_root = second.gizmo.uuid;
    let stop = c.apply_commands(vec![
        ThermalCapturerCmd::SetSettings(first),
        ThermalCapturerCmd::SetSettings(second),
    ]);
    assert!(!stop);
    assert_eq!(c.settings.manual_range, range(18000, 19000));
    assert_eq!(c.settings.rotation, ImageRotation::Clockwise180);
    assert_eq!(c.settings.gizmo.uuid, second_root);
    let mut s = settings(range(0, 0));
    s.gizmo = Gizmo::new_root(vec![]);
    assert!(!c.apply_command(ThermalCapturerCmd::SetSettings(s)));
    let frame = c.compose_frame(frame_data(), 0, Instant::now()).unwrap();
    assert_eq!(frame.image_range, range(0, 0));
    assert!(frame.gizmo_results.is_empty());
}

#[test]
fn orders_after_a_stop_are_left_unseen() {
    let mut c = ctx(settings(range(17000, 21000)));
    let stop = c.apply_commands(vec![
        ThermalCapturerCmd::SetSettings(settings(range(1, 2))),
        ThermalCapturerCmd::Stop,
        ThermalCapturerCmd::SetSettings(settings(range(3, 4))),
    ]);
    assert!(stop);
    assert_eq!(c.settings.manual_range, range(1, 2));
    assert!(c.apply_command(ThermalCapturerCmd::Stop));
    assert_eq!(c.settings.manual_range, range(1, 2));
    assert!(!c.apply_commands(vec![]));
    assert_eq!(c.settings.manual_range, range(1, 2));
}

#[test]
fn failures_of_camera_and_probes_end_the_loop() {
    use_errors();
}

fn use_errors() {
    let decode = CaptureError::Decode(DecodeError::FrameTooShort { needed: 2, got: 1 });
    assert!(decode.ends_loop());
    assert!(CaptureError::Probe(GizmoError::RootHasNoChildren).ends_loop());
    assert!(!CaptureError::Recorder(RecorderError { message: "x".to_string() }).ends_loop());
}

#[test]
fn a_snapshot_sink_is_started_fed_once_and_done() {
    let mut s = settings(range(17000, 21000));
    s.recorders.push(Sink::snapshot());
    let mut c = ctx(s);
    let started = Instant::now();
    let frame = c.produce_result(frame_data(), started).unwrap();
    assert!(frame.real_fps > 0);
    let sink = &c.settings.recorders[0];
    assert_eq!(sink.started_with, vec![RecorderStreamParams { width: 3, height: 2, framerate: 25 }]);
    assert_eq!(sink.frames, vec![(3, 2)]);
    assert_eq!(sink.state(), RecorderState::Done);
    assert_eq!(sink.files_created(), vec!["out/shot_2024-05-06_07-08-09.png".to_string()]);
    // A sink that is done is left alone.
    c.produce_result(frame_data(), Instant::now()).unwrap();
    c.produce_result(frame_data(), Instant::now()).unwrap();
    let sink = &c.settings.recorders[0];
    assert_eq!(sink.started_with.len(), 1);
    assert_eq!(sink.frames.len(), 1);
    assert_eq!(sink.files_created().len(), 1);
}

#[test]
fn a_sink_added_later_is_started_on_the_next_frame() {
    let mut c = ctx(settings(range(17000, 21000)));
    c.produce_result(frame_data(), Instant::now()).unwrap();
    let mut with_sink = settings(range(17000, 21000));
    with_sink.recorders.push(Sink::snapshot());
    assert_eq!(with_sink.recorders[0].state(), RecorderState::Initial);
    c.apply_command(ThermalCapturerCmd::SetSettings(with_sink));
    assert_eq!(c.settings.recorders[0].state(), RecorderState::Initial);
    c.produce_result(frame_data(), Instant::now()).unwrap();
    assert_eq!(c.settings.recorders[0].state(), RecorderState::Done);
    assert_eq!(c.settings.recorders[0].files_created().len(), 1);
}

#[test]
fn a_video_sink_is_fed_every_frame_until_it_is_stopped() {
    let mut s = settings(range(17000, 21000));
    s.rotation = ImageRotation::Clockwise90;
    s.gizmo = Gizmo::new_root(vec![]);
    s.recorders.push(Sink::video());
    let mut c = ctx(s);
    for _ in 0..3 {
        c.produce_result(frame_data(), Instant::now()).unwrap();
    }
    assert_eq!(c.settings.recorders[0].state(), RecorderState::Recording);
    assert_eq!(
        c.settings.recorders[0].started_with,
        vec![RecorderStreamParams { width: 2, height: 3, framerate: 25 }]
    );
    assert_eq!(c.settings.recorders[0].frames, vec![(2, 3), (2, 3), (2, 3)]);
    c.settings.recorders[0].stop().unwrap();
    c.produce_result(frame_data(), Instant::now()).unwrap();
    assert_eq!(c.settings.recorders[0].frames.len(), 3);
    assert_eq!(c.settings.recorders[0].state(), RecorderState::Done);
}

#[test]
fn a_failing_sink_fails_the_frame_but_not_the_other_sinks() {
    let mut s = settings(range(17000, 21000));
    s.recorders.push(Sink { fail_frames: true, ..Sink::video() });
    s.recorders.push(Sink::video());
    s.recorders.push(Sink { fail_start: true, ..Sink::video() });
    s.recorders.push(Sink::snapshot());
    let mut c = ctx(s);
    let failure = c.produce_result(frame_data(), Instant::now()).err();
    assert_eq!(
        failure,
        Some(CaptureError::Recorder(RecorderError { message: "cannot write".to_string() }))
    );
    let sinks = &c.settings.recorders;
    assert_eq!(sinks[0].frames.len(), 1);
    assert_eq!(sinks[0].state(), RecorderState::Recording);
    assert_eq!(sinks[1].frames.len(), 1);
    assert_eq!(sinks[1].state(), RecorderState::Recording);
    // A sink that cannot be started is stopped and never given a frame.
    assert_eq!(sinks[2].frames.len(), 0);
    assert_eq!(sinks[2].stops, 1);
    assert_eq!(sinks[2].state(), RecorderState::Done);
    assert_eq!(sinks[3].state(), RecorderState::Done);
    assert_eq!(sinks[3].files_created().len(), 1);
    c.produce_result(frame_data(), Instant::now()).err().unwrap();
    assert_eq!(c.settings.recorders[2].started_with.len(), 1);
    assert_eq!(c.settings.recorders[1].frames.len(), 2);
}

#[test]
fn sinks_can_be_fed_one_by_one() {
    let mut c = ctx(settings(range(17000, 21000)));
    let frame = c.compose_frame(frame_data(), 0, Instant::now()).unwrap();
    let params = RecorderStreamParams { width: 3, height: 2, framerate: 10 };
    let mut sink = Sink::snapshot();
    assert_eq!(feed_recorder(&mut sink, params, &frame), Ok(()));
    assert_eq!(sink.state(), RecorderState::Done);
    assert_eq!(feed_recorder(&mut sink, params, &frame), Ok(()));
    assert_eq!(sink.frames.len(), 1);
    let mut failing = Sink { fail_start: true, ..Sink::video() };
    assert_eq!(
        feed_recorder(&mut failing, params, &frame),
        Err(RecorderError { message: "cannot start".to_string() })
    );
    let mut none: Vec<Sink> = Vec::new();
    assert_eq!(feed_recorders(&mut none, params, &frame), Ok(()));
}

#[test]
fn finished_sinks_are_taken_off_the_list() {
    let mut done = Sink::snapshot();
    done.stop().unwrap();
    let mut named = Sink::video();
    named.continuous = true;
    let mut sinks = vec![Sink::snapshot(), done.clone(), named, done];
    assert!(drop_finished(&mut sinks));
    assert_eq!(sinks.len(), 2);
    assert!(!sinks[0].is_continuous());
    assert!(sinks[1].is_continuous());
    assert!(!drop_finished(&mut sinks));
    assert_eq!(sinks.len(), 2);
    let mut none: Vec<Sink> = Vec::new();
    assert!(!drop_finished(&mut none));
}

#[test]
fn a_capturer_runs_from_start_to_stop() {
    let mut phase = CapturerPhase::Constructed;
    assert!(phase.can_start());
    assert_eq!(phase.start(), LoopAction::OpenStreamAndCapture);
    assert_eq!(phase, CapturerPhase::Capturing);
    assert!(!phase.can_start());
    assert_eq!(phase.frame_published(true, false), LoopAction::DrainCommands);
    assert_eq!(phase, CapturerPhase::Draining);
    assert_eq!(phase.commands_applied(false), LoopAction::Capture);
    assert_eq!(phase, CapturerPhase::Capturing);
    assert_eq!(phase.frame_published(true, false), LoopAction::DrainCommands);
    assert_eq!(phase.commands_applied(true), LoopAction::CloseStreamAndExit);
    assert_eq!(phase, CapturerPhase::Stopped);
    assert!(!phase.can_start());
}

#[test]
fn a_capturer_stops_itself_after_a_failure_that_ends_the_loop() {
    let mut phase = CapturerPhase::Capturing;
    assert_eq!(phase.frame_published(true, true), LoopAction::CloseStreamAndExit);
    assert_eq!(phase, CapturerPhase::Stopped);
    let mut phase = CapturerPhase::Capturing;
    assert_eq!(phase.frame_published(false, false), LoopAction::Exit);
    assert_eq!(phase, CapturerPhase::Stopped);
    let mut phase = CapturerPhase::Capturing;
    assert_eq!(phase.frame_published(false, true), LoopAction::Exit);
    assert_eq!(phase, CapturerPhase::Stopped);
}

fn infiray_frame(readings: impl Fn(usize) -> u16) -> Vec<u8> {
    let mut frame = vec![0u8; 128 * 48 * 2];
    for i in 0..128 * 48 {
        let r = readings(i);
        frame.push((r & 0xff) as u8);
        frame.push((r >> 8) as u8);
    }
    frame
}

#[test]
fn a_frame_that_was_read_is_decoded_and_made_into_a_result() {
    let s = settings(range(17000, 21000));
    let ids: Vec<u128> = s.gizmo.children_ref().unwrap().iter().map(|g| g.uuid).collect();
    assert!(s.ready_for_layout(KnownCamera::InfirayP2Pro.payload_layout()));
    let mut c = ctx(s);
    let bytes = infiray_frame(|i| if i == 130 { 20000 } else { 18000 + (i % 7) as u16 });
    let frame = c
        .capture_frame(&KnownCamera::InfirayP2Pro, Ok(&bytes[..]), Instant::now())
        .unwrap();
    assert_eq!((frame.image.width, frame.image.height), (128, 48));
    assert_eq!(
        frame.gizmo_results[&ids[0]],
        GizmoResult { temperature: Temp::new(20000), pos: ThermalDataPos::new(2, 1) }
    );
    assert_eq!(
        frame.gizmo_results[&ids[1]],
        GizmoResult { temperature: Temp::new(18000), pos: ThermalDataPos::new(0, 0) }
    );
    assert_eq!(frame.image.pixels[130], grey(191));
}

#[test]
fn a_frame_that_could_not_be_read_or_is_short_gives_a_decode_failure() {
    let mut c = ctx(settings(range(17000, 21000)));
    let unread = c.capture_frame(
        &KnownCamera::InfirayP2Pro,
        Err("device unplugged".to_string()),
        Instant::now(),
    );
    assert_eq!(
        unread.err(),
        Some(CaptureError::Decode(DecodeError::StreamRead { message: "device unplugged".to_string() }))
    );
    let short = c.capture_frame(&KnownCamera::InfirayP2Pro, Ok(&[0u8; 100]), Instant::now());
    assert_eq!(
        short.as_ref().err(),
        Some(&CaptureError::Decode(DecodeError::FrameTooShort { needed: 24576, got: 100 }))
    );
    assert!(short.unwrap_err().ends_loop());
    assert_eq!(
        capture_from(&KnownCamera::ThermalMasterP2, Err("gone".to_string())),
        Err(DecodeError::StreamRead { message: "gone".to_string() })
    );
    // The range controller has not been touched.
    assert_eq!(c.auto_range_controller.current(), range(17482, 20682));
}

#[test]
fn settings_are_ready_for_a_layout_that_holds_every_probe() {
    let mut s = settings(range(17000, 21000));
    let wide = PayloadLayout { offset: 0, width: 3, height: 1 };
    let tall = PayloadLayout { offset: 0, width: 1, height: 3 };
    // The probe at (0, 1) needs two rows.
    assert!(!s.ready_for_layout(wide));
    assert!(s.ready_for_layout(tall));
    s.rotation = ImageRotation::Clockwise90;
    assert_eq!(s.observed_size(3, 1), (1, 3));
    assert!(s.ready_for_layout(wide));
    assert!(!s.ready_for_layout(tall));
    assert!(!s.ready_for_layout(PayloadLayout { offset: 0, width: 0, height: 3 }));
    s.dynamic_range_curve.points.push(thermal_viewer::dynamic_range_curve::CurvePoint::Sharp(0, 0));
    assert!(!s.ready_for_layout(wide));
    assert!(!s.ready_for(&frame_data()));
    let mut ok = settings(range(17000, 21000));
    assert!(ok.ready_for(&frame_data()));
    ok.rotation = ImageRotation::Clockwise180;
    assert!(ok.ready_for(&frame_data()));
    assert!(!ok.ready_for(&ThermalData { width: 3, height: 2, data: vec![] }));
    assert!(!ok.ready_for(&ThermalData { width: 2, height: 1, data: vec![Temp::new(1), Temp::new(2)] }));
}

#[test]
fn a_short_frame_is_a_decode_failure_whatever_the_probes_and_recorders() {
    let mut s = settings(range(17000, 21000));
    s.gizmo = Gizmo::new_root(vec![]);
    s.recorders.push(Sink { fail_frames: true, ..Sink::video() });
    let mut c = ctx(s);
    let short = c.capture_frame(&KnownCamera::InfirayP2Pro, Ok(&[0u8; 24575]), Instant::now());
    assert_eq!(
        short.err(),
        Some(CaptureError::Decode(DecodeError::FrameTooShort { needed: 24576, got: 24575 }))
    );
    // Nothing was started or fed.
    assert!(c.settings.recorders[0].started_with.is_empty());
    assert_eq!(c.settings.recorders[0].state(), RecorderState::Initial);
}

#[test]
fn a_frame_comes_out_where_every_recorder_has_finished() {
    let mut s = settings(range(17000, 21000));
    let mut done = Sink { fail_frames: true, fail_start: true, ..Sink::video() };
    done.stop().unwrap();
    s.recorders.push(done.clone());
    s.recorders.push(done);
    let mut c = ctx(s);
    let bytes = infiray_frame(|_| 18000);
    assert!(c.capture_frame(&KnownCamera::InfirayP2Pro, Ok(&bytes[..]), Instant::now()).is_ok());
    assert!(c.produce_result(frame_data(), Instant::now()).is_ok());
    assert!(c.settings.recorders.iter().all(|r| r.frames.is_empty() && r.started_with.is_empty()));
}

#[test]
fn the_first_failure_of_a_recorder_is_the_failure_of_the_frame() {
    let mut s = settings(range(17000, 21000));
    s.recorders.push(Sink::video());
    s.recorders.push(Sink { fail_start: true, ..Sink::video() });
    s.recorders.push(Sink { fail_frames: true, ..Sink::video() });
    let mut c = ctx(s);
    assert_eq!(
        c.produce_result(frame_data(), Instant::now()).err(),
        Some(CaptureError::Recorder(RecorderError { message: "cannot start".to_string() }))
    );
    // Every recorder had its turn.
    assert_eq!(c.settings.recorders[0].frames, vec![(3, 2)]);
    assert_eq!(c.settings.recorders[1].state(), RecorderState::Done);
    assert_eq!(c.settings.recorders[2].frames, vec![(3, 2)]);
    assert_eq!(
        c.settings.recorders[2].started_with,
        vec![RecorderStreamParams { width: 3, height: 2, framerate: 25 }]
    );
}
