use vstd::prelude::*;
use std::collections::HashMap;
use std::time::Instant;
use crate::auto_display_range_controller::AutoDisplayRangeController;
use crate::camera_adapter::{capture_from, decodes, CameraAdapter, DecodeError, PayloadLayout};
use crate::color_image::{ColorImage, Rgba};
use crate::dynamic_range_curve::{curve_value, DynamicRangeCurve};
use crate::gizmos::{results_of, Gizmo, GizmoError, GizmoResult};
use crate::grid::Grid;
use crate::recorders::recorder::{
    all_fed, all_finished, feed_recorders, first_failure, lemma_finished_are_left, Recorder,
    RecorderError, RecorderStreamParams,
};
use crate::temperature::{Temp, TempRange};
use crate::thermal_data::{
    captured_range, corrected_cells, first_max_index, first_min_index, pos_of, ThermalData,
    ThermalDataHistogram,
};
use crate::thermal_gradient::{color_at, ThermalGradient};
use crate::types::image_rotation::ImageRotation;

verus! {

/// What one frame comes to: its picture and what was measured in it.
#[derive(Debug)]
pub struct ThermalCapturerResult {
    pub image: ColorImage,
    pub image_range: TempRange,
    /// Frames in a thousand seconds at the pace at which this frame was made.
    pub real_fps: u64,
    /// Frames in a second as the camera reports them.
    pub reported_fps: u32,
    pub histogram: ThermalDataHistogram,
    pub gizmo_results: HashMap<u128, GizmoResult>,
    pub capture_time: Instant,
    pub camera_short_name: String,
}

/// How many buckets the histogram of a frame has.
pub const HISTOGRAM_BUCKETS: usize = 100;

/// How a frame is to be made into a picture, measured and recorded. The
/// bundle is handed over whole: a new one takes the place of the old one.
#[derive(Clone, Debug)]
pub struct ThermalCapturerSettings<R> {
    pub auto_range: bool,
    pub manual_range: TempRange,
    pub gradient: ThermalGradient,
    pub rotation: ImageRotation,
    pub gizmo: Gizmo,
    pub dynamic_range_curve: DynamicRangeCurve,
    pub recorders: Vec<R>,
    /// The temperature of the surroundings.
    pub ambient: Temp,
    /// The emissivity of what is looked at, in millionths.
    pub emissivity: i64,
}

impl<R> ThermalCapturerSettings<R> {
    /// The curve is in order.
    pub open spec fn wf(&self) -> bool {
        self.dynamic_range_curve.wf()
    }

    /// The colour of `temp` where `range` is spread over the colour ramp:
    /// the place of the temperature in the range goes through the curve,
    /// and what comes out is looked up on the ramp.
    pub open spec fn spec_temp_to_color(&self, temp: Temp, range: TempRange) -> Rgba {
        color_at(
            self.gradient.points@,
            curve_value(self.dynamic_range_curve.points@, range.spec_factor(temp) as int),
        )
    }

    /// The frame as it is looked at: every pixel corrected for emissivity
    /// and surroundings, and the whole turned.
    pub open spec fn observed(&self, data: Grid<Temp>) -> Grid<Temp> {
        (Grid {
            width: data.width,
            height: data.height,
            cells: corrected_cells(data.cells, self.ambient, self.emissivity as int),
        }).rotated(self.rotation)
    }

    /// The size of the frame as it is looked at, for a frame of the size
    /// given as it comes from the camera.
    pub open spec fn spec_observed_size(&self, width: usize, height: usize) -> (usize, usize) {
        if self.rotation.quarter_turns() % 2 == 0 {
            (width, height)
        } else {
            (height, width)
        }
    }

    /// The size of the frame as it is looked at, for a frame of the size
    /// given as it comes from the camera: turned by one or three quarter turns,
    /// it is as wide as it was high.
    pub fn observed_size(&self, width: usize, height: usize) -> (size: (usize, usize))
        ensures
            size == self.spec_observed_size(width, height),
    {
        match self.rotation {
            ImageRotation::Clockwise0 | ImageRotation::Clockwise180 => (width, height),
            ImageRotation::Clockwise90 | ImageRotation::Clockwise270 => (height, width),
        }
    }

    /// Whether a frame can be made of `data` with these settings: the curve
    /// is in order, the frame has pixels, one for each place, and every probe
    /// finds its place in the frame as it is looked at.
    pub open spec fn spec_ready_for(&self, data: &ThermalData) -> bool {
        &&& self.wf()
        &&& data.wf()
        &&& data.data@.len() > 0
        &&& self.gizmo.spec_fits(
            self.observed(data@).width as int,
            self.observed(data@).height as int,
        )
    }

    /// Whether a frame can be made of `data` with these settings.
    pub fn ready_for(&self, data: &ThermalData) -> (b: bool)
        ensures
            b == self.spec_ready_for(data),
    {
        if !self.dynamic_range_curve.is_valid() {
            return false;
        }
        let pixels: usize = data.data.len();
        match data.width.checked_mul(data.height) {
            Some(places) => {
                if pixels == 0 || pixels != places {
                    return false;
                }
            },
            None => {
                return false;
            },
        }
        let (width, height) = self.observed_size(data.width, data.height);
        proof {
            let corrected = Grid {
                width: data@.width,
                height: data@.height,
                cells: corrected_cells(data.data@, self.ambient, self.emissivity as int),
            };
            assert(self.observed(data@) == corrected.rotated(self.rotation));
        }
        self.gizmo.fits(width, height)
    }

    /// Whether a frame can be made with these settings of whatever a camera
    /// with the given layout gives: the curve is in order, the sensor has
    /// pixels, and every probe finds its place in the frame as it is looked at.
    pub open spec fn spec_ready_for_layout(&self, layout: PayloadLayout) -> bool {
        &&& self.wf()
        &&& layout.wf()
        &&& layout.width * layout.height > 0
        &&& self.gizmo.spec_fits(
            self.spec_observed_size(layout.width, layout.height).0 as int,
            self.spec_observed_size(layout.width, layout.height).1 as int,
        )
    }

    /// Whether a frame can be made with these settings of whatever a camera
    /// with the given layout gives.
    pub fn ready_for_layout(&self, layout: PayloadLayout) -> (b: bool)
        requires
            layout.wf(),
        ensures
            b == self.spec_ready_for_layout(layout),
    {
        if !self.dynamic_range_curve.is_valid() {
            return false;
        }
        proof {
            assert(layout.width * layout.height >= 0) by (nonlinear_arith)
                requires
                    layout.width >= 0,
                    layout.height >= 0,
            ;
            assert(layout.width * layout.height > 0 <==> layout.width > 0 && layout.height > 0)
                by (nonlinear_arith)
                requires
                    layout.width >= 0,
                    layout.height >= 0,
            ;
        }
        if layout.width == 0 || layout.height == 0 {
            return false;
        }
        let (width, height) = self.observed_size(layout.width, layout.height);
        self.gizmo.fits(width, height)
    }

    /// Everything but the recorders is as in `other`.
    pub open spec fn same_but_recorders(&self, other: &ThermalCapturerSettings<R>) -> bool {
        &&& self.auto_range == other.auto_range
        &&& self.manual_range == other.manual_range
        &&& self.gradient == other.gradient
        &&& self.rotation == other.rotation
        &&& self.gizmo == other.gizmo
        &&& self.dynamic_range_curve == other.dynamic_range_curve
        &&& self.ambient == other.ambient
        &&& self.emissivity == other.emissivity
    }

    /// The colour of `temp` where `override_range`, or without one the
    /// manual range, is spread over the colour ramp.
    pub fn temp_to_color(&self, temp: Temp, override_range: Option<TempRange>) -> (c: Rgba)
        requires
            self.wf(),
        ensures
            c == self.spec_temp_to_color(
                temp,
                match override_range {
                    Some(range) => range,
                    None => self.manual_range,
                },
            ),
    {
        let range = match override_range {
            Some(range) => range,
            None => self.manual_range,
        };
        let fac = range.factor(temp);
        let fac = self.dynamic_range_curve.get_value(fac);
        self.gradient.get_color(fac)
    }

    /// The picture of `data` with `range` spread over the colour ramp.
    pub fn render(&self, data: &ThermalData, range: TempRange) -> (img: ColorImage)
        requires
            self.wf(),
            data.wf(),
        ensures
            img.wf(),
            img.width == data.width,
            img.height == data.height,
            forall|i: int|
                0 <= i < data.data@.len() ==> (#[trigger] img.pixels@[i]) == self.spec_temp_to_color(
                    data.data@[i],
                    range,
                ),
    {
        let paint = |t: Temp| -> (c: Rgba)
            requires
                self.wf(),
            ensures
                c == self.spec_temp_to_color(t, range),
            { self.temp_to_color(t, Some(range)) };
        data.map_to_image(paint)
    }
}

/// What the owner of a capture loop can ask of it.
pub enum ThermalCapturerCmd<R> {
    /// Work with these settings from the next frame on.
    SetSettings(ThermalCapturerSettings<R>),
    /// End the loop.
    Stop,
}

/// Why no frame came out.
#[derive(Debug, PartialEq, Eq)]
pub enum CaptureError {
    /// The camera gave no frame that could be read.
    Decode(DecodeError),
    /// The probes could not be read.
    Probe(GizmoError),
    /// A recorder failed; the frame itself was made.
    Recorder(RecorderError),
}

impl CaptureError {
    /// Whether the loop gives up after this failure: it does where the
    /// camera or the probes are at fault, and goes on where a recorder is.
    pub open spec fn spec_ends_loop(&self) -> bool {
        !(self is Recorder)
    }

    /// Whether the loop gives up after this failure.
    pub fn ends_loop(&self) -> (b: bool)
        ensures
            b == self.spec_ends_loop(),
    {
        match self {
            CaptureError::Recorder(_) => false,
            _ => true,
        }
    }
}

/// The settings that count after `cmds` have come in, in this order,
/// where `settings` counted before: those of the last order to set them that
/// came before the first order to stop.
pub open spec fn settings_after<R>(
    settings: ThermalCapturerSettings<R>,
    cmds: Seq<ThermalCapturerCmd<R>>,
) -> ThermalCapturerSettings<R>
    decreases cmds.len(),
{
    if cmds.len() == 0 {
        settings
    } else if stops(cmds.drop_last()) {
        settings_after(settings, cmds.drop_last())
    } else {
        match cmds.last() {
            ThermalCapturerCmd::SetSettings(new_settings) => new_settings,
            ThermalCapturerCmd::Stop => settings_after(settings, cmds.drop_last()),
        }
    }
}

/// Whether an order to stop is among `cmds`.
pub open spec fn stops<R>(cmds: Seq<ThermalCapturerCmd<R>>) -> bool {
    exists|i: int| 0 <= i < cmds.len() && #[trigger] cmds[i] is Stop
}

/// Of orders that hold no order to stop and end with an order to set the
/// settings, the last one alone counts: whatever came before it is as if it
/// had never been sent.
pub proof fn lemma_last_settings_win<R>(
    settings: ThermalCapturerSettings<R>,
    cmds: Seq<ThermalCapturerCmd<R>>,
    last: ThermalCapturerSettings<R>,
)
    requires
        !stops(cmds),
    ensures
        settings_after(settings, cmds.push(ThermalCapturerCmd::SetSettings(last))) == last,
        !stops(cmds.push(ThermalCapturerCmd::SetSettings(last))),
{
    let all = cmds.push(ThermalCapturerCmd::SetSettings(last));
    assert(all.drop_last() =~= cmds);
    assert(all.last() == ThermalCapturerCmd::<R>::SetSettings(last));
    if stops(all) {
        let i = choose|i: int| 0 <= i < all.len() && #[trigger] all[i] is Stop;
        assert(cmds[i] is Stop);
    }
}

/// Frames in a thousand seconds where one frame takes `micros` microseconds.
pub open spec fn frames_per_kilosecond(micros: u64) -> u64 {
    if micros == 0 {
        u64::MAX
    } else {
        (1_000_000_000int / (micros as int)) as u64
    }
}

/// `frame` is what `settings` make of the frame `grid` as it is looked at,
/// where the range controller hands out `display`: the picture spreads the
/// displayed range over the colour ramp, the histogram counts the pixels over
/// the captured and the displayed range together, and each probe has found
/// its temperature.
pub open spec fn frame_shows<R>(
    frame: ThermalCapturerResult,
    settings: ThermalCapturerSettings<R>,
    grid: Grid<Temp>,
    display: TempRange,
) -> bool {
    let captured = captured_range(grid.cells);
    &&& frame.image_range == (if settings.auto_range {
        display
    } else {
        settings.manual_range
    })
    &&& frame.image.wf()
    &&& frame.image.width == grid.width
    &&& frame.image.height == grid.height
    &&& forall|i: int|
        0 <= i < grid.cells.len() ==> (#[trigger] frame.image.pixels@[i])
            == settings.spec_temp_to_color(grid.cells[i], frame.image_range)
    &&& frame.histogram.points@.len() == HISTOGRAM_BUCKETS
    &&& ThermalDataHistogram::describes(
        frame.histogram.points@,
        grid.cells,
        captured.spec_join(frame.image_range),
    )
    &&& frame.gizmo_results@ == results_of(
        settings.gizmo.children(),
        grid,
        pos_of(grid.width, first_min_index(grid.cells)),
        pos_of(grid.width, first_max_index(grid.cells)),
    )
}

/// Where a capturer stands in its life: made, running its loop, or stopped
/// for good.
#[derive(Clone, Copy, Debug, PartialEq, Eq, Structural)]
pub enum CapturerPhase {
    /// Made, but not started.
    Constructed,
    /// Running: the next thing to do is to take a frame and publish what
    /// comes of it.
    Capturing,
    /// Running: a frame has been published, and the next thing to do is to
    /// take in the orders that have come in.
    Draining,
    /// Stopped; nothing is done any more.
    Stopped,
}

/// What the loop does next.
#[derive(Clone, Copy, Debug, PartialEq, Eq, Structural)]
pub enum LoopAction {
    /// Open the stream of the camera, then take a frame and publish the result.
    OpenStreamAndCapture,
    /// Take a frame and publish the result.
    Capture,
    /// Take in the orders that have come in.
    DrainCommands,
    /// Close the stream of the camera and end.
    CloseStreamAndExit,
    /// End; the stream is left as it is, for nobody is there to care.
    Exit,
}

impl CapturerPhase {
    /// Whether the loop is running.
    pub open spec fn is_running(self) -> bool {
        self == CapturerPhase::Capturing || self == CapturerPhase::Draining
    }

    /// Starts the loop. A capturer is started once.
    pub fn start(&mut self) -> (action: LoopAction)
        requires
            *old(self) == CapturerPhase::Constructed,
        ensures
            *final(self) == CapturerPhase::Capturing,
            action == LoopAction::OpenStreamAndCapture,
    {
        *self = CapturerPhase::Capturing;
        LoopAction::OpenStreamAndCapture
    }

    /// Whether the capturer can be started: it can where it has not been.
    pub fn can_start(&self) -> (b: bool)
        ensures
            b == (*self == CapturerPhase::Constructed),
    {
        *self == CapturerPhase::Constructed
    }

    /// Takes note that the result of a frame was published. The loop ends
    /// where nobody took the result; it closes the stream and ends where the
    /// result was a failure that ends the loop; else the orders that have come
    /// in are taken in next.
    pub fn frame_published(&mut self, delivered: bool, ends_loop: bool) -> (action: LoopAction)
        requires
            *old(self) == CapturerPhase::Capturing,
        ensures
            !delivered ==> *final(self) == CapturerPhase::Stopped && action == LoopAction::Exit,
            delivered && ends_loop ==> *final(self) == CapturerPhase::Stopped && action
                == LoopAction::CloseStreamAndExit,
            delivered && !ends_loop ==> *final(self) == CapturerPhase::Draining && action
                == LoopAction::DrainCommands,
    {
        if !delivered {
            *self = CapturerPhase::Stopped;
            LoopAction::Exit
        } else if ends_loop {
            *self = CapturerPhase::Stopped;
            LoopAction::CloseStreamAndExit
        } else {
            *self = CapturerPhase::Draining;
            LoopAction::DrainCommands
        }
    }

    /// Takes note that the orders that had come in were taken in. With an
    /// order to stop among them the loop closes the stream and ends; else
    /// the next frame is taken.
    pub fn commands_applied(&mut self, stop: bool) -> (action: LoopAction)
        requires
            *old(self) == CapturerPhase::Draining,
        ensures
            stop ==> *final(self) == CapturerPhase::Stopped && action
                == LoopAction::CloseStreamAndExit,
            !stop ==> *final(self) == CapturerPhase::Capturing && action == LoopAction::Capture,
    {
        if stop {
            *self = CapturerPhase::Stopped;
            LoopAction::CloseStreamAndExit
        } else {
            *self = CapturerPhase::Capturing;
            LoopAction::Capture
        }
    }
}

/// What a capture loop works with from frame to frame.
pub struct ThermalCapturerCtx<R> {
    pub settings: ThermalCapturerSettings<R>,
    pub auto_range_controller: AutoDisplayRangeController,
    pub camera_short_name: String,
    pub reported_fps: u32,
}

impl<R> ThermalCapturerCtx<R> {
    /// What a loop starts with: the settings given and a range controller at rest.
    pub fn new(default_settings: ThermalCapturerSettings<R>, camera_short_name: String, reported_fps: u32) -> (ctx:
        ThermalCapturerCtx<R>)
        ensures
            ctx.settings == default_settings,
            ctx.camera_short_name == camera_short_name,
            ctx.reported_fps == reported_fps,
            ctx.auto_range_controller@ == crate::auto_display_range_controller::RangeControl::initial(),
            !ctx.auto_range_controller.has_run(),
    {
        ThermalCapturerCtx {
            settings: default_settings,
            auto_range_controller: AutoDisplayRangeController::new(),
            camera_short_name,
            reported_fps,
        }
    }

    /// Takes in one order from the owner of the loop. New settings take the
    /// place of the old ones as a whole; an order to stop leaves them alone.
    /// Returns whether the loop is to end.
    pub fn apply_command(&mut self, cmd: ThermalCapturerCmd<R>) -> (stop: bool)
        ensures
            stop == (cmd is Stop),
            final(self).settings == settings_after(old(self).settings, seq![cmd]),
            final(self).auto_range_controller == old(self).auto_range_controller,
            final(self).camera_short_name == old(self).camera_short_name,
            final(self).reported_fps == old(self).reported_fps,
    {
        proof {
            let cmds = seq![cmd];
            assert(cmds.drop_last() =~= Seq::<ThermalCapturerCmd<R>>::empty());
            assert(!stops(cmds.drop_last()));
            assert(cmds.last() == cmd);
            assert(settings_after(old(self).settings, cmds.drop_last()) == old(self).settings);
        }
        match cmd {
            ThermalCapturerCmd::SetSettings(settings) => {
                self.settings = settings;
                false
            },
            ThermalCapturerCmd::Stop => true,
        }
    }

    /// Takes in the orders that have come in since the last frame, in the
    /// order in which they were sent, up to the first order to stop. Returns
    /// whether the loop is to end.
    pub fn apply_commands(&mut self, cmds: Vec<ThermalCapturerCmd<R>>) -> (stop: bool)
        ensures
            stop == stops(cmds@),
            final(self).settings == settings_after(old(self).settings, cmds@),
            final(self).auto_range_controller == old(self).auto_range_controller,
            final(self).camera_short_name == old(self).camera_short_name,
            final(self).reported_fps == old(self).reported_fps,
    {
        let ghost all = cmds@;
        let mut pending = cmds;
        let ghost mut done: int = 0;
        proof {
            assert(all.take(0) =~= Seq::<ThermalCapturerCmd<R>>::empty());
        }
        while pending.len() > 0
            invariant
                all == cmds@,
                0 <= done <= all.len(),
                pending@ == all.skip(done),
                !stops(all.take(done)),
                self.settings == settings_after(old(self).settings, all.take(done)),
                self.auto_range_controller == old(self).auto_range_controller,
                self.camera_short_name == old(self).camera_short_name,
                self.reported_fps == old(self).reported_fps,
            decreases pending@.len(),
        {
            let cmd = pending.remove(0);
            proof {
                assert(cmd == all[done]);
                assert(all.take(done + 1).drop_last() =~= all.take(done));
                assert(all.take(done + 1).last() == cmd);
                assert(all.skip(done).remove(0) =~= all.skip(done + 1));
            }
            match cmd {
                ThermalCapturerCmd::SetSettings(settings) => {
                    self.settings = settings;
                    proof {
                        if stops(all.take(done + 1)) {
                            let i = choose|i: int|
                                0 <= i < all.take(done + 1).len() && #[trigger] all.take(
                                    done + 1,
                                )[i] is Stop;
                            assert(all.take(done)[i] is Stop);
                        }
                        done = done + 1;
                    }
                },
                ThermalCapturerCmd::Stop => {
                    proof {
                        lemma_settings_after_stop(old(self).settings, all, done);
                        assert(stops(all));
                        assert(self.settings == settings_after(old(self).settings, all));
                    }
                    return true;
                },
            }
        }
        proof {
            assert(all.take(done) =~= all);
        }
        false
    }

    /// Makes a frame of what the camera measured: corrects and turns the
    /// temperatures, lets the range controller know the captured range
    /// `elapsed` microseconds after the last one, paints the picture, counts
    /// the histogram and reads the probes. Only a root without probes of its
    /// own keeps a frame from being made.
    pub fn compose_frame(&mut self, thermal_data: ThermalData, elapsed: u64, capture_time: Instant) -> (r:
        Result<ThermalCapturerResult, GizmoError>)
        requires
            old(self).settings.spec_ready_for(&thermal_data),
        ensures
            final(self).settings == old(self).settings,
            final(self).camera_short_name == old(self).camera_short_name,
            final(self).reported_fps == old(self).reported_fps,
            final(self).auto_range_controller@ == old(self).auto_range_controller@.step(
                captured_range(old(self).settings.observed(thermal_data@).cells),
                elapsed,
            ),
            final(self).auto_range_controller.has_run() == old(self).auto_range_controller.has_run(),
            match r {
                Ok(frame) => {
                    &&& old(self).settings.gizmo.kind is Root
                    &&& frame_shows(
                        frame,
                        old(self).settings,
                        old(self).settings.observed(thermal_data@),
                        final(self).auto_range_controller@.display(),
                    )
                    &&& frame.capture_time == capture_time
                    &&& frame.camera_short_name@ == old(self).camera_short_name@
                    &&& frame.reported_fps == old(self).reported_fps
                    &&& frame.real_fps == 0
                },
                Err(e) => !(old(self).settings.gizmo.kind is Root) && e
                    == GizmoError::RootHasNoChildren,
            },
    {
        let corrected = thermal_data.corrected(self.settings.ambient, self.settings.emissivity);
        let data = corrected.rotated(self.settings.rotation);
        proof {
            assert(corrected@ == (Grid {
                width: thermal_data@.width,
                height: thermal_data@.height,
                cells: corrected_cells(
                    thermal_data.data@,
                    self.settings.ambient,
                    self.settings.emissivity as int,
                ),
            }));
            assert(data@ == self.settings.observed(thermal_data@));
            lemma_rotated_size(corrected@, self.settings.rotation);
        }
        let (min_pos, max_pos) = data.get_min_max_pos();
        let captured = TempRange::new(
            data.temperature_at(min_pos.x, min_pos.y),
            data.temperature_at(max_pos.x, max_pos.y),
        );
        proof {
            let w = data.width as int;
            let h = data.height as int;
            crate::grid::lemma_index_split(first_min_index(data.data@), w, h);
            crate::grid::lemma_index_split(first_max_index(data.data@), w, h);
            assert(captured == captured_range(data.data@));
        }
        let mut mapping_range = self.auto_range_controller.compute_after(captured, elapsed);
        if !self.settings.auto_range {
            mapping_range = self.settings.manual_range;
        }
        let image = self.settings.render(&data, mapping_range);
        let gizmo_results = match self.settings.gizmo.evaluate(&data, min_pos, max_pos) {
            Ok(found) => found,
            Err(e) => {
                return Err(e);
            },
        };
        let histogram = ThermalDataHistogram::from_thermal_data(
            &data,
            captured.join(mapping_range),
            HISTOGRAM_BUCKETS,
        );
        Ok(
            ThermalCapturerResult {
                image,
                image_range: mapping_range,
                real_fps: 0,
                reported_fps: self.reported_fps,
                histogram,
                gizmo_results,
                capture_time,
                camera_short_name: self.camera_short_name.clone(),
            },
        )
    }
}

fn frame_rate(micros: u128) -> (fps: u64)
    ensures
        micros <= u64::MAX ==> fps == frames_per_kilosecond(micros as u64),
        micros > u64::MAX ==> fps == 0,
{
    if micros == 0 {
        u64::MAX
    } else if micros > 1_000_000_000 {
        proof {
            if micros <= u64::MAX {
                crate::fixed_point::lemma_div_unique(1_000_000_000, micros as int, 0);
            }
        }
        0
    } else {
        proof {
            crate::fixed_point::lemma_div_monotonic(0, 1_000_000_000, micros as int);
            crate::fixed_point::lemma_div_unique(0, micros as int, 0);
            crate::fixed_point::lemma_div_monotonic(1_000_000_000, 1_000_000_000 * micros, micros as int);
            crate::fixed_point::lemma_div_unique(1_000_000_000 * micros, micros as int, 1_000_000_000);
        }
        (1_000_000_000 / micros) as u64
    }
}

/// What recorders are told of the stream when they are started for the
/// frame `shown`: the size of its picture, and the frame rate that the camera
/// reports.
pub open spec fn stream_params(shown: ThermalCapturerResult, reported_fps: u32) -> RecorderStreamParams {
    RecorderStreamParams {
        width: shown.image.width,
        height: shown.image.height,
        framerate: reported_fps as usize,
    }
}

/// The recorders `before` were each handed the frame `shown`, as
/// `feed_recorder` does it, and are now as in `after`; `failure` is the first
/// failure among them, if there was one.
pub open spec fn recorders_fed<R: Recorder>(
    before: Seq<R>,
    shown: ThermalCapturerResult,
    reported_fps: u32,
    after: Seq<R>,
    failure: Option<RecorderError>,
) -> bool {
    exists|outcomes: Seq<Result<(), RecorderError>>|
        {
            &&& #[trigger] all_fed(
                before,
                stream_params(shown, reported_fps),
                &shown,
                after,
                outcomes,
            )
            &&& first_failure(outcomes) == failure
        }
}

/// `shown` is the frame that the loop `before` makes of `data`, where the
/// loop is as `after` afterwards.
pub open spec fn frame_made<R>(
    before: ThermalCapturerCtx<R>,
    data: ThermalData,
    after: ThermalCapturerCtx<R>,
    shown: ThermalCapturerResult,
) -> bool {
    &&& frame_shows(
        shown,
        before.settings,
        before.settings.observed(data@),
        after.auto_range_controller@.display(),
    )
    &&& shown.camera_short_name@ == before.camera_short_name@
    &&& shown.reported_fps == before.reported_fps
}

/// What `produce_result` does with the temperatures `data`, where the loop
/// was as `before` and is as `after`, and `r` comes out.
///
/// The range controller has taken a step with the captured range, after some
/// time read from the clock; nothing of the settings but the recorders has
/// changed. A root that is none gives the probe failure, and leaves the
/// recorders as they are. Else a frame is made and handed to every recorder:
/// it comes out where no recorder fails, and the first failure of a recorder
/// comes out in its place where one fails. Where every recorder has finished,
/// or there is none, the frame comes out.
pub open spec fn produced<R: Recorder>(
    before: ThermalCapturerCtx<R>,
    data: ThermalData,
    after: ThermalCapturerCtx<R>,
    r: Result<ThermalCapturerResult, CaptureError>,
) -> bool {
    &&& after.settings.same_but_recorders(&before.settings)
    &&& after.settings.recorders@.len() == before.settings.recorders@.len()
    &&& after.camera_short_name == before.camera_short_name
    &&& after.reported_fps == before.reported_fps
    &&& after.auto_range_controller.has_run()
    &&& exists|elapsed: u64| #[trigger]
        before.auto_range_controller@.step(
            captured_range(before.settings.observed(data@).cells),
            elapsed,
        ) == after.auto_range_controller@
    &&& match r {
        Ok(shown) => {
            &&& before.settings.gizmo.kind is Root
            &&& frame_made(before, data, after, shown)
            &&& recorders_fed(
                before.settings.recorders@,
                shown,
                before.reported_fps,
                after.settings.recorders@,
                None,
            )
        },
        Err(CaptureError::Probe(e)) => {
            &&& !(before.settings.gizmo.kind is Root)
            &&& e == GizmoError::RootHasNoChildren
            &&& after.settings == before.settings
        },
        Err(CaptureError::Recorder(e)) => {
            &&& before.settings.gizmo.kind is Root
            &&& exists|shown: ThermalCapturerResult|
                {
                    &&& #[trigger] frame_made(before, data, after, shown)
                    &&& recorders_fed(
                        before.settings.recorders@,
                        shown,
                        before.reported_fps,
                        after.settings.recorders@,
                        Some(e),
                    )
                }
        },
        Err(CaptureError::Decode(_)) => false,
    }
    &&& before.settings.gizmo.kind is Root && all_finished(before.settings.recorders@) ==> r is Ok
        && after.settings.recorders@ == before.settings.recorders@
}

impl<R: Recorder> ThermalCapturerCtx<R> {
    /// Makes a frame of what the camera measured, as `compose_frame` does,
    /// at the pace of the clock, and hands it to every recorder, each as
    /// `feed_recorder` does. The time since `frame_started` gives the frame
    /// rate. The frame comes out where no recorder fails; the first failure of
    /// a recorder comes out in its place where one fails.
    pub fn produce_result(&mut self, thermal_data: ThermalData, frame_started: Instant) -> (r: Result<
        ThermalCapturerResult,
        CaptureError,
    >)
        requires
            old(self).settings.spec_ready_for(&thermal_data),
        ensures
            produced(*old(self), thermal_data, *final(self), r),
            !(old(self).settings.gizmo.kind is Root) <==> r matches Err(CaptureError::Probe(_)),
            old(self).settings.gizmo.kind is Root && all_finished(old(self).settings.recorders@)
                ==> r is Ok,
            !(r matches Err(CaptureError::Decode(_))),
    {
        let elapsed: u64 = self.auto_range_controller.tick();
        let capture_time = Instant::now();
        let mut frame = match self.compose_frame(thermal_data, elapsed, capture_time) {
            Ok(frame) => frame,
            Err(e) => {
                return Err(CaptureError::Probe(e));
            },
        };
        let done = Instant::now();
        frame.real_fps = frame_rate(done.saturating_duration_since(frame_started).as_micros());
        let params = RecorderStreamParams {
            width: frame.image.width,
            height: frame.image.height,
            framerate: self.reported_fps as usize,
        };
        let ghost shown = frame;
        let ghost fed_before = self.settings.recorders@;
        let outcome = feed_recorders(&mut self.settings.recorders, params, &frame);
        proof {
            let outcomes = choose|outcomes: Seq<Result<(), RecorderError>>|
                {
                    &&& #[trigger] all_fed(
                        fed_before,
                        params,
                        &shown,
                        self.settings.recorders@,
                        outcomes,
                    )
                    &&& outcome == (match first_failure(outcomes) {
                        Some(e) => Err::<(), RecorderError>(e),
                        None => Ok::<(), RecorderError>(()),
                    })
                };
            assert(fed_before == old(self).settings.recorders@);
            assert(params == stream_params(shown, old(self).reported_fps));
            assert(frame_made(*old(self), thermal_data, *self, shown));
            assert(recorders_fed(
                fed_before,
                shown,
                old(self).reported_fps,
                self.settings.recorders@,
                first_failure(outcomes),
            ));
            if all_finished(fed_before) {
                lemma_finished_are_left(
                    fed_before,
                    params,
                    &shown,
                    self.settings.recorders@,
                    outcomes,
                );
            }
        }
        match outcome {
            Ok(_) => Ok(frame),
            Err(e) => Err(CaptureError::Recorder(e)),
        }
    }
}

impl<R: Recorder> ThermalCapturerCtx<R> {
    /// Does what is to be done for one frame once it has been read from the
    /// stream: decodes it, and makes a result of it and hands that to every
    /// recorder as `produce_result` does. A frame that could not be read or
    /// that is short comes out as that failure and leaves everything as it is;
    /// no other frame comes out as a decode failure.
    pub fn capture_frame<A: CameraAdapter>(
        &mut self,
        adapter: &A,
        frame: Result<&[u8], String>,
        frame_started: Instant,
    ) -> (r: Result<ThermalCapturerResult, CaptureError>)
        requires
            old(self).settings.spec_ready_for_layout(adapter.layout()),
        ensures
            match frame {
                Err(message) => {
                    &&& r matches Err(CaptureError::Decode(e)) && e == (DecodeError::StreamRead {
                        message,
                    })
                    &&& *final(self) == *old(self)
                },
                Ok(bytes) => if bytes@.len() < adapter.layout().needed() {
                    &&& r matches Err(CaptureError::Decode(e)) && e == (
                    DecodeError::FrameTooShort {
                        needed: adapter.layout().needed() as usize,
                        got: bytes@.len() as usize,
                    })
                    &&& *final(self) == *old(self)
                } else {
                    exists|data: ThermalData|
                        {
                            &&& decodes(bytes@, adapter.layout(), data)
                            &&& #[trigger] produced(*old(self), data, *final(self), r)
                        }
                },
            },
            (frame is Err || frame->Ok_0@.len() < adapter.layout().needed()) <==> r matches Err(
                CaptureError::Decode(_),
            ),
            frame is Ok && frame->Ok_0@.len() >= adapter.layout().needed() ==> (!(
            old(self).settings.gizmo.kind is Root) <==> r matches Err(CaptureError::Probe(_))),
            frame is Ok && frame->Ok_0@.len() >= adapter.layout().needed()
                && old(self).settings.gizmo.kind is Root && all_finished(
                old(self).settings.recorders@,
            ) ==> r is Ok,
            final(self).settings.same_but_recorders(&old(self).settings),
            final(self).settings.recorders@.len() == old(self).settings.recorders@.len(),
            final(self).camera_short_name == old(self).camera_short_name,
            final(self).reported_fps == old(self).reported_fps,
    {
        let thermal_data = match capture_from(adapter, frame) {
            Ok(data) => data,
            Err(e) => {
                return Err(CaptureError::Decode(e));
            },
        };
        proof {
            let corrected = Grid {
                width: thermal_data@.width,
                height: thermal_data@.height,
                cells: corrected_cells(
                    thermal_data.data@,
                    self.settings.ambient,
                    self.settings.emissivity as int,
                ),
            };
            assert(self.settings.observed(thermal_data@) == corrected.rotated(self.settings.rotation));
            assert(self.settings.spec_ready_for(&thermal_data));
        }
        let ghost data = thermal_data;
        let r = self.produce_result(thermal_data, frame_started);
        proof {
            assert(decodes(frame->Ok_0@, adapter.layout(), data));
            assert(produced(*old(self), data, *self, r));
        }
        r
    }
}

/// A grid with cells stays a grid with cells when it is turned.
proof fn lemma_rotated_size(g: Grid<Temp>, rotation: ImageRotation)
    requires
        g.wf(),
    ensures
        g.rotated(rotation).wf(),
        g.rotated(rotation).cells.len() == g.cells.len(),
{
    assert(g.width * g.height == g.height * g.width) by (nonlinear_arith);
}

/// After an order to stop, no order counts.
proof fn lemma_settings_after_stop<R>(
    settings: ThermalCapturerSettings<R>,
    cmds: Seq<ThermalCapturerCmd<R>>,
    at: int,
)
    requires
        0 <= at < cmds.len(),
        cmds[at] is Stop,
        !stops(cmds.take(at)),
    ensures
        stops(cmds),
        settings_after(settings, cmds) == settings_after(settings, cmds.take(at)),
    decreases cmds.len(),
{
    if at == cmds.len() - 1 {
        assert(cmds.drop_last() =~= cmds.take(at));
    } else {
        let front = cmds.drop_last();
        assert(front[at] is Stop);
        assert(front.take(at) =~= cmds.take(at));
        lemma_settings_after_stop(settings, front, at);
    }
}

} // verus!
