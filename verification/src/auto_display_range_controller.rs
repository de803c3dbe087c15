use vstd::prelude::*;
use std::time::Instant;
use crate::fixed_point::{floor_div, lemma_div_monotonic, lemma_div_unique, FACTOR_ONE};
use crate::temperature::{Temp, TempRange};

verus! {

#[verifier::external_type_specification]
#[verifier::external_body]
pub struct ExInstant(Instant);

/// `std::time::Instant::now`: the reading of the clock; nothing is claimed of it.
pub assume_specification[ Instant::now ]() -> (now: Instant);

/// `std::time::Instant::saturating_duration_since`: the time from `earlier`
/// to `later`, or none where `earlier` is the later one; nothing is claimed
/// of it.
pub assume_specification[ Instant::saturating_duration_since ](
    later: &Instant,
    earlier: Instant,
) -> (elapsed: std::time::Duration);

/// `std::time::Duration::as_micros`: the whole microseconds in a duration;
/// nothing is claimed of their number.
pub assume_specification[ std::time::Duration::as_micros ](duration: &std::time::Duration) -> (micros:
    u128);

/// The sum of two times in microseconds, held at the end of the `u64` range.
pub open spec fn added_time(a: u64, b: u64) -> u64 {
    if a + b > u64::MAX {
        u64::MAX
    } else {
        (a + b) as u64
    }
}

/// How far an animation of `duration` microseconds has come after
/// `progress` microseconds, in millionths, rounded down: a million once the
/// duration has passed.
pub open spec fn progress_factor(progress: u64, duration: u64) -> i64 {
    if progress >= duration {
        FACTOR_ONE
    } else {
        ((progress * (FACTOR_ONE as int)) / (duration as int)) as i64
    }
}

/// What a range controller knows and how it is set up. Times are in
/// microseconds.
pub struct RangeControl {
    /// The display range as it stands.
    pub current: TempRange,
    /// The range that the display range is on its way to, if it is on its way.
    pub target: Option<TempRange>,
    /// For how long it has been on its way.
    pub progress: u64,
    /// For how long the captured range has pressed on the display range.
    pub clipping: u64,
    /// The pressure that is borne before the display range gives way.
    pub clipping_threshold: u64,
    /// The time the display range takes to reach a target.
    pub anim_duration: u64,
    /// The room left over the captured range by a target.
    pub new_max_headroom: Temp,
    /// The room left under the captured range by a target.
    pub new_min_headroom: Temp,
    /// The room over the captured range beyond which the display range is too wide.
    pub shrink_max_headroom: Temp,
    /// The room under the captured range beyond which the display range is too wide.
    pub shrink_min_headroom: Temp,
    /// The least span of the range that is handed out.
    pub min_separation: Temp,
}

impl RangeControl {
    /// The set-up makes sense: no room and no span is negative, and the
    /// pressure that is borne can be outlasted.
    pub open spec fn wf(self) -> bool {
        &&& self.clipping_threshold < u64::MAX
        &&& self.new_max_headroom@ >= 0
        &&& self.new_min_headroom@ >= 0
        &&& self.shrink_max_headroom@ >= 0
        &&& self.shrink_min_headroom@ >= 0
        &&& self.min_separation@ >= 0
    }

    /// The captured range presses on the display range: it reaches out of
    /// it, or leaves more room than allowed at one of its ends.
    pub open spec fn under_pressure(self, captured: TempRange) -> bool {
        ||| !self.current.spec_contains_range(captured)
        ||| captured.max@ < self.current.max.spec_minus(self.shrink_max_headroom)@
        ||| captured.min@ > self.current.min.spec_plus(self.shrink_min_headroom)@
    }

    /// The range that the display range makes for under pressure from
    /// `captured`: the captured range with some room at both ends.
    pub open spec fn target_for(self, captured: TempRange) -> TempRange {
        TempRange {
            min: captured.min.spec_minus(self.new_min_headroom),
            max: captured.max.spec_plus(self.new_max_headroom),
        }
    }

    /// The pressure time after `elapsed` more microseconds with `captured`.
    pub open spec fn next_clipping(self, captured: TempRange, elapsed: u64) -> u64 {
        if self.under_pressure(captured) {
            added_time(self.clipping, elapsed)
        } else {
            0
        }
    }

    /// The target after `elapsed` more microseconds with `captured`, before
    /// the display range moves: none while the pressure is borne, a new one
    /// when it gives way, the old one where there is one already.
    pub open spec fn next_target(self, captured: TempRange, elapsed: u64) -> Option<TempRange> {
        if self.next_clipping(captured, elapsed) > self.clipping_threshold {
            if self.target is None {
                Some(self.target_for(captured))
            } else {
                self.target
            }
        } else {
            None
        }
    }

    /// The time on the way after `elapsed` more microseconds with `captured`.
    pub open spec fn next_progress(self, captured: TempRange, elapsed: u64) -> u64 {
        if self.next_target(captured, elapsed) is None {
            self.progress
        } else if self.target is None {
            added_time(0, elapsed)
        } else {
            added_time(self.progress, elapsed)
        }
    }

    /// The controller after `elapsed` more microseconds with `captured`.
    pub open spec fn step(self, captured: TempRange, elapsed: u64) -> RangeControl {
        let clipping = self.next_clipping(captured, elapsed);
        let progress = self.next_progress(captured, elapsed);
        match self.next_target(captured, elapsed) {
            Some(target) => {
                let factor = progress_factor(progress, self.anim_duration);
                RangeControl {
                    current: self.current.spec_animate(target, factor as int),
                    target: if factor >= FACTOR_ONE {
                        None
                    } else {
                        Some(target)
                    },
                    progress,
                    clipping,
                    ..self
                }
            },
            None => RangeControl { target: None, progress, clipping, ..self },
        }
    }

    /// The range that is handed out: the display range, its upper end raised
    /// where its span is under the least span.
    pub open spec fn display(self) -> TempRange {
        if self.current.spec_diff()@ < self.min_separation@ {
            TempRange {
                min: self.current.min,
                max: self.current.max.spec_plus(
                    self.min_separation.spec_minus(self.current.spec_diff()),
                ),
            }
        } else {
            self.current
        }
    }

    /// The controller after a run of calls with one captured range, call
    /// `k` made `elapsed[k]` microseconds after the call before.
    pub open spec fn run(self, captured: TempRange, elapsed: Seq<u64>) -> RangeControl
        decreases elapsed.len(),
    {
        if elapsed.len() == 0 {
            self
        } else {
            self.run(captured, elapsed.drop_last()).step(captured, elapsed.last())
        }
    }

    /// Set up as `other` is.
    pub open spec fn same_setup(self, other: RangeControl) -> bool {
        &&& self.clipping_threshold == other.clipping_threshold
        &&& self.anim_duration == other.anim_duration
        &&& self.new_max_headroom == other.new_max_headroom
        &&& self.new_min_headroom == other.new_min_headroom
        &&& self.shrink_max_headroom == other.shrink_max_headroom
        &&& self.shrink_min_headroom == other.shrink_min_headroom
        &&& self.min_separation == other.min_separation
    }

    /// At rest and under pressure from `captured` for `total` microseconds,
    /// which is borne yet.
    pub open spec fn waiting(self, captured: TempRange, total: int) -> bool {
        &&& self.target is None
        &&& self.under_pressure(captured)
        &&& self.clipping == total
        &&& self.clipping <= self.clipping_threshold
    }

    /// On the way to the target for `captured`, `total` microseconds after
    /// the pressure began.
    pub open spec fn on_the_way(self, captured: TempRange, total: int) -> bool {
        &&& self.target == Some(self.target_for(captured))
        &&& self.clipping > self.clipping_threshold
        &&& self.progress < self.anim_duration
        &&& total - self.progress <= self.clipping_threshold
    }

    /// Holding `captured`, and at the target for it unless the pressure ceased before.
    pub open spec fn settled(self, captured: TempRange) -> bool {
        &&& self.current.spec_contains_range(captured)
        &&& self.current == self.target_for(captured) || !self.under_pressure(captured)
        &&& self.target is Some ==> self.arrived(captured)
    }

    /// At the target for `captured`.
    pub open spec fn arrived(self, captured: TempRange) -> bool {
        &&& self.current == self.target_for(captured)
        &&& self.target is Some ==> self.target == Some(self.target_for(captured))
    }

    /// Under pressure from `captured`, or at the target for it.
    pub open spec fn on_course(self, captured: TempRange) -> bool {
        self.under_pressure(captured) || self.current == self.target_for(captured)
    }

    /// A controller as it is made: showing 0 to 50 degrees Celsius, at rest.
    pub open spec fn initial() -> RangeControl {
        RangeControl {
            current: TempRange { min: Temp { units: 17482 }, max: Temp { units: 20682 } },
            target: None,
            progress: 0,
            clipping: 0,
            clipping_threshold: 900_000,
            anim_duration: 500_000,
            new_max_headroom: Temp { units: 64 },
            new_min_headroom: Temp { units: 64 },
            shrink_max_headroom: Temp { units: 128 },
            shrink_min_headroom: Temp { units: 128 },
            min_separation: Temp { units: 320 },
        }
    }
}

/// The microseconds of a run of calls together.
pub open spec fn total_time(elapsed: Seq<u64>) -> int
    decreases elapsed.len(),
{
    if elapsed.len() == 0 {
        0
    } else {
        total_time(elapsed.drop_last()) + elapsed.last()
    }
}

/// A range on its way reaches its target at the factor 1, and stays where it
/// is when it is at the target already.
pub proof fn lemma_animate_arrives(from: TempRange, target: TempRange, factor: int)
    ensures
        factor >= FACTOR_ONE ==> from.spec_animate(target, factor) == target,
        from == target ==> from.spec_animate(target, factor) == target,
{
    crate::temperature::lemma_interpolated_between(from.min@, target.min@, factor);
    crate::temperature::lemma_interpolated_between(from.max@, target.max@, factor);
}

/// The target for a captured range holds the captured range.
pub proof fn lemma_target_holds_captured(s: RangeControl, captured: TempRange)
    requires
        s.wf(),
        captured.is_ordered(),
    ensures
        s.target_for(captured).spec_contains_range(captured),
{
}

/// Ranges that are in order stay in order: where the display range, the
/// captured range and a target on the way are in order, the display range is
/// in order after the call, and so are a target that stays on the way and the
/// range that is handed out.
pub proof fn lemma_step_keeps_order(s: RangeControl, captured: TempRange, elapsed: u64)
    requires
        s.wf(),
        s.current.is_ordered(),
        captured.is_ordered(),
        s.target is Some ==> s.target->0.is_ordered(),
    ensures
        s.step(captured, elapsed).current.is_ordered(),
        s.step(captured, elapsed).target is Some ==> s.step(captured, elapsed).target->0.is_ordered(),
        s.step(captured, elapsed).display().is_ordered(),
        s.step(captured, elapsed).wf(),
{
    let next = s.step(captured, elapsed);
    match s.next_target(captured, elapsed) {
        Some(target) => {
            let factor = progress_factor(next.progress, s.anim_duration);
            assert(target.is_ordered());
            crate::temperature::lemma_interpolated_order(
                s.current.min@,
                target.min@,
                s.current.max@,
                target.max@,
                factor as int,
            );
            crate::temperature::lemma_interpolated_between(s.current.min@, target.min@, factor as int);
            crate::temperature::lemma_interpolated_between(s.current.max@, target.max@, factor as int);
        },
        None => {},
    }
}

/// The range that is handed out spans the least span at least, unless its
/// upper end is held at the end of the scale.
pub proof fn lemma_display_spans_least(s: RangeControl)
    requires
        s.wf(),
        s.current.is_ordered(),
    ensures
        s.display().min == s.current.min,
        s.display().max@ >= s.current.max@,
        s.display().max@ < i64::MAX ==> s.display().span() >= s.min_separation@,
{
}

/// A captured range that does not press on the display range leaves the
/// controller at rest, however long it stays and however often it comes: no
/// pressure time builds up, nothing sets off, and the display range stays
/// where it is.
pub proof fn lemma_rest_without_pressure(s: RangeControl, captured: TempRange, elapsed: Seq<u64>)
    requires
        !s.under_pressure(captured),
        elapsed.len() > 0,
    ensures
        s.run(captured, elapsed).current == s.current,
        s.run(captured, elapsed).target is None,
        s.run(captured, elapsed).clipping == 0,
        s.run(captured, elapsed).same_setup(s),
        !s.run(captured, elapsed).under_pressure(captured),
    decreases elapsed.len(),
{
    let front = elapsed.drop_last();
    assert(s.run(captured, elapsed) == s.run(captured, front).step(captured, elapsed.last()));
    if front.len() > 0 {
        lemma_rest_without_pressure(s, captured, front);
    } else {
        assert(s.run(captured, front) == s);
    }
}

/// What holds of a controller `total` microseconds into a run of calls with
/// one captured range that began at rest.
pub open spec fn in_phase(s: RangeControl, captured: TempRange, total: int, straight: bool) -> bool {
    ||| s.waiting(captured, total)
    ||| s.on_the_way(captured, total)
    ||| (if straight {
        s.arrived(captured)
    } else {
        s.settled(captured)
    })
}

proof fn lemma_step_in_phase(
    s: RangeControl,
    captured: TempRange,
    total: int,
    elapsed: u64,
    straight: bool,
)
    requires
        s.wf(),
        captured.is_ordered(),
        in_phase(s, captured, total, straight),
        straight ==> s.on_course(captured),
    ensures
        in_phase(s.step(captured, elapsed), captured, total + elapsed, straight),
        s.step(captured, elapsed).same_setup(s),
        s.step(captured, elapsed).wf(),
{
    let next = s.step(captured, elapsed);
    let target = s.target_for(captured);
    lemma_target_holds_captured(s, captured);
    assert(next.target_for(captured) == target);
    match s.next_target(captured, elapsed) {
        Some(t) => {
            let factor = progress_factor(next.progress, s.anim_duration);
            lemma_animate_arrives(s.current, t, factor as int);
            if next.progress < s.anim_duration {
                let d = s.anim_duration as int;
                let num = next.progress * (FACTOR_ONE as int);
                assert(num <= d * (FACTOR_ONE as int) - (FACTOR_ONE as int)) by (nonlinear_arith)
                    requires
                        num == next.progress * (FACTOR_ONE as int),
                        next.progress <= d - 1,
                        FACTOR_ONE as int == 1_000_000,
                ;
                lemma_div_monotonic(num, d * (FACTOR_ONE as int) - 1, d);
                assert((FACTOR_ONE as int - 1) * d == d * (FACTOR_ONE as int) - d) by (nonlinear_arith);
                lemma_div_unique(d * (FACTOR_ONE as int) - 1, d, FACTOR_ONE as int - 1);
                lemma_div_monotonic(0, num, d);
                lemma_div_unique(0, d, 0);
                assert(factor < FACTOR_ONE);
            }
        },
        None => {},
    }
}

proof fn lemma_run_in_phase(
    s: RangeControl,
    captured: TempRange,
    elapsed: Seq<u64>,
    straight: bool,
)
    requires
        s.wf(),
        s.target is None,
        s.clipping == 0,
        captured.is_ordered(),
        straight ==> s.on_course(captured),
        straight ==> forall|k: int|
            0 <= k < elapsed.len() ==> (#[trigger] s.run(captured, elapsed.take(k))).on_course(
                captured,
            ),
    ensures
        in_phase(s.run(captured, elapsed), captured, total_time(elapsed), straight),
        s.run(captured, elapsed).same_setup(s),
        s.run(captured, elapsed).wf(),
    decreases elapsed.len(),
{
    if elapsed.len() == 0 {
        assert(s.run(captured, elapsed) == s);
        assert(total_time(elapsed) == 0);
    } else {
        let front = elapsed.drop_last();
        assert(s.run(captured, elapsed) == s.run(captured, front).step(captured, elapsed.last()));
        assert(total_time(elapsed) == total_time(front) + elapsed.last());
        if straight {
            assert forall|k: int| 0 <= k < front.len() implies (#[trigger] s.run(
                captured,
                front.take(k),
            )).on_course(captured) by {
                assert(front.take(k) =~= elapsed.take(k));
            }
            assert(elapsed.take(elapsed.len() - 1) =~= front);
        }
        lemma_run_in_phase(s, captured, front, straight);
        lemma_step_in_phase(
            s.run(captured, front),
            captured,
            total_time(front),
            elapsed.last(),
            straight,
        );
    }
}

/// A controller at rest that meets one captured range in call after call
/// holds that range once the calls have taken longer than the pressure is
/// borne and the way to a target takes: the display range, and the range
/// that is handed out, contain the captured range.
pub proof fn lemma_settles_over_captured(s: RangeControl, captured: TempRange, elapsed: Seq<u64>)
    requires
        s.wf(),
        s.target is None,
        s.clipping == 0,
        captured.is_ordered(),
        total_time(elapsed) > s.clipping_threshold + s.anim_duration,
    ensures
        s.run(captured, elapsed).current.spec_contains_range(captured),
        s.run(captured, elapsed).display().spec_contains_range(captured),
{
    lemma_run_in_phase(s, captured, elapsed, false);
}

/// A controller at rest that meets one captured range in call after call,
/// and that the range presses on until the display range has reached the
/// target for it, is at that target once the calls have taken longer than
/// the pressure is borne and the way to a target takes: the display range is
/// the captured range with the set room at both ends.
pub proof fn lemma_reaches_target(s: RangeControl, captured: TempRange, elapsed: Seq<u64>)
    requires
        s.wf(),
        s.target is None,
        s.clipping == 0,
        captured.is_ordered(),
        total_time(elapsed) > s.clipping_threshold + s.anim_duration,
        forall|k: int|
            0 <= k < elapsed.len() ==> (#[trigger] s.run(captured, elapsed.take(k))).on_course(
                captured,
            ),
    ensures
        s.run(captured, elapsed).current == s.target_for(captured),
        s.run(captured, elapsed).current.spec_contains_range(s.target_for(captured)),
        s.run(captured, elapsed).display().spec_contains_range(s.target_for(captured)),
{
    assert(elapsed.len() > 0);
    assert(elapsed.take(0).len() == 0);
    assert(s.run(captured, elapsed.take(0)) == s);
    lemma_run_in_phase(s, captured, elapsed, true);
    lemma_target_holds_captured(s, captured);
}

/// Keeps the range of temperatures that colours are spread over steady
/// while the range that the camera captures flickers.
pub struct AutoDisplayRangeController {
    current: TempRange,
    last_compute_call: Option<Instant>,
    anim_target_range: Option<TempRange>,
    anim_progress: u64,
    clipping_time: u64,
    clipping_time_threshold: u64,
    anim_duration: u64,
    new_range_max_headroom: Temp,
    new_range_min_headroom: Temp,
    shrink_range_max_headroom: Temp,
    shrink_range_min_headroom: Temp,
    min_separation: Temp,
}

impl View for AutoDisplayRangeController {
    type V = RangeControl;

    closed spec fn view(&self) -> RangeControl {
        RangeControl {
            current: self.current,
            target: self.anim_target_range,
            progress: self.anim_progress,
            clipping: self.clipping_time,
            clipping_threshold: self.clipping_time_threshold,
            anim_duration: self.anim_duration,
            new_max_headroom: self.new_range_max_headroom,
            new_min_headroom: self.new_range_min_headroom,
            shrink_max_headroom: self.shrink_range_max_headroom,
            shrink_min_headroom: self.shrink_range_min_headroom,
            min_separation: self.min_separation,
        }
    }
}

fn add_time(a: u64, b: u64) -> (r: u64)
    ensures
        r == added_time(a, b),
{
    if a > u64::MAX - b {
        u64::MAX
    } else {
        a + b
    }
}

impl AutoDisplayRangeController {
    /// Whether the clock has been read for this controller yet.
    pub closed spec fn has_run(&self) -> bool {
        self.last_compute_call is Some
    }

    /// A controller at rest that shows 0 to 50 degrees Celsius, bears pressure
    /// for 900 ms, takes 500 ms to reach a target, leaves one kelvin of room
    /// around a captured range, allows two, and hands out five kelvin at least.
    pub fn new() -> (c: AutoDisplayRangeController)
        ensures
            c@ == RangeControl::initial(),
            c@.wf(),
            !c.has_run(),
    {
        AutoDisplayRangeController {
            current: TempRange::new(Temp::new(17482), Temp::new(20682)),
            last_compute_call: None,
            anim_target_range: None,
            anim_progress: 0,
            clipping_time: 0,
            clipping_time_threshold: 900_000,
            anim_duration: 500_000,
            new_range_max_headroom: Temp::new(64),
            new_range_min_headroom: Temp::new(64),
            shrink_range_max_headroom: Temp::new(128),
            shrink_range_min_headroom: Temp::new(128),
            min_separation: Temp::new(320),
        }
    }

    /// The display range as it stands.
    pub fn current(&self) -> (r: TempRange)
        ensures
            r == self@.current,
    {
        self.current
    }

    /// The range to hand out as things stand.
    pub fn display_range(&self) -> (r: TempRange)
        ensures
            r == self@.display(),
    {
        let span = self.current.diff();
        if span.units < self.min_separation.units {
            TempRange::new(self.current.min, self.current.max + (self.min_separation - span))
        } else {
            self.current
        }
    }

    /// Takes in the range captured `elapsed` microseconds after the last
    /// one, and hands out the range to display.
    pub fn compute_after(&mut self, captured_range: TempRange, elapsed: u64) -> (r: TempRange)
        ensures
            final(self)@ == old(self)@.step(captured_range, elapsed),
            r == final(self)@.display(),
            final(self).has_run() == old(self).has_run(),
    {
        let shrink_min = self.current.min + self.shrink_range_min_headroom;
        let shrink_max = self.current.max - self.shrink_range_max_headroom;
        if !self.current.contains_range(captured_range) || captured_range.max.units
            < shrink_max.units || captured_range.min.units > shrink_min.units {
            self.clipping_time = add_time(self.clipping_time, elapsed);
        } else {
            self.clipping_time = 0;
        }
        if self.clipping_time > self.clipping_time_threshold {
            if self.anim_target_range.is_none() {
                self.anim_target_range = Some(
                    TempRange::new(
                        captured_range.min - self.new_range_min_headroom,
                        captured_range.max + self.new_range_max_headroom,
                    ),
                );
                self.anim_progress = 0;
            }
        } else {
            self.anim_target_range = None;
        }
        match self.anim_target_range {
            Some(target) => {
                self.anim_progress = add_time(self.anim_progress, elapsed);
                let factor: i64 = if self.anim_progress >= self.anim_duration {
                    FACTOR_ONE
                } else {
                    let num: i128 = (self.anim_progress as i128) * 1_000_000;
                    proof {
                        let d = self.anim_duration as int;
                        lemma_div_monotonic(0, num as int, d);
                        lemma_div_unique(0, d, 0);
                        lemma_div_monotonic(num as int, d * 1_000_000, d);
                        lemma_div_unique(d * 1_000_000, d, 1_000_000);
                    }
                    floor_div(num, self.anim_duration as i128) as i64
                };
                self.current = self.current.animate(target, factor);
                if factor >= FACTOR_ONE {
                    self.anim_target_range = None;
                }
            },
            None => {},
        }
        self.display_range()
    }

    /// Reads the clock: the microseconds since it was last read for this
    /// controller, and none the first time.
    pub fn tick(&mut self) -> (elapsed: u64)
        ensures
            final(self)@ == old(self)@,
            final(self).has_run(),
            !old(self).has_run() ==> elapsed == 0,
    {
        let now = Instant::now();
        let elapsed: u64 = match self.last_compute_call {
            Some(last) => {
                let micros: u128 = now.saturating_duration_since(last).as_micros();
                if micros > u64::MAX as u128 {
                    u64::MAX
                } else {
                    micros as u64
                }
            },
            None => 0,
        };
        self.last_compute_call = Some(now);
        elapsed
    }

    /// Takes in the range captured just now, and hands out the range to
    /// display. The time since the call before is read from the clock; the
    /// first call counts as made at once.
    pub fn compute(&mut self, captured_range: TempRange) -> (r: TempRange)
        ensures
            exists|elapsed: u64| #[trigger]
                old(self)@.step(captured_range, elapsed) == final(self)@,
            !old(self).has_run() ==> final(self)@ == old(self)@.step(captured_range, 0),
            r == final(self)@.display(),
            final(self).has_run(),
    {
        let elapsed: u64 = self.tick();
        self.compute_after(captured_range, elapsed)
    }
}

} // verus!
