use vstd::prelude::*;
use crate::thermal_capturer::ThermalCapturerResult;

verus! {

/// Where a recorder stands in its life: not started, taking frames, finished.
#[derive(Clone, Copy, Debug, PartialEq, Eq, Structural)]
pub enum RecorderState {
    Initial,
    Recording,
    Done,
}

/// What a recorder is told of the stream when it is started.
#[derive(Clone, Copy, Debug, PartialEq, Eq, Structural)]
pub struct RecorderStreamParams {
    pub width: usize,
    pub height: usize,
    pub framerate: usize,
}

/// Why a recorder could not do what it was asked to.
#[derive(Debug, PartialEq, Eq)]
pub struct RecorderError {
    pub message: String,
}

/// What the capture loop does with a recorder when a frame is ready.
#[derive(Clone, Copy, Debug, PartialEq, Eq, Structural)]
pub enum RecorderStep {
    /// The recorder has finished: it is left alone.
    Skip,
    /// The recorder is taking frames: it is given the frame.
    Feed,
    /// The recorder has not been started: it is started and, where that
    /// went well and it has not finished at once, given the frame.
    StartThenFeed,
}

impl RecorderState {
    /// What to do with a recorder in this state when a frame is ready.
    pub open spec fn spec_step(self) -> RecorderStep {
        match self {
            RecorderState::Initial => RecorderStep::StartThenFeed,
            RecorderState::Recording => RecorderStep::Feed,
            RecorderState::Done => RecorderStep::Skip,
        }
    }

    /// What to do with a recorder in this state when a frame is ready.
    pub fn step(self) -> (s: RecorderStep)
        ensures
            s == self.spec_step(),
    {
        match self {
            RecorderState::Initial => RecorderStep::StartThenFeed,
            RecorderState::Recording => RecorderStep::Feed,
            RecorderState::Done => RecorderStep::Skip,
        }
    }

    /// Whether a recorder found in this state after it was started takes the frame.
    pub fn takes_frames(self) -> (b: bool)
        ensures
            b == (self != RecorderState::Done),
    {
        self != RecorderState::Done
    }
}

/// The first failure of a run of attempts: `first` where there is one
/// already, else the failure of `outcome` where it is one.
pub open spec fn spec_keep_first(first: Option<RecorderError>, outcome: Result<(), RecorderError>) -> Option<
    RecorderError,
> {
    match first {
        Some(e) => Some(e),
        None => match outcome {
            Ok(_) => None,
            Err(e) => Some(e),
        },
    }
}

/// The first failure of a run of attempts, with one more attempt taken in.
pub fn keep_first(first: Option<RecorderError>, outcome: Result<(), RecorderError>) -> (r: Option<
    RecorderError,
>)
    ensures
        r == spec_keep_first(first, outcome),
{
    match first {
        Some(e) => Some(e),
        None => match outcome {
            Ok(_) => None,
            Err(e) => Some(e),
        },
    }
}

/// A sink that frames are handed to: a snapshot, a video.
pub trait Recorder {
    /// What a call of `start` with `params` may come to on this recorder:
    /// that it ends with `outcome` and leaves the recorder in the state
    /// `state_after`. It is for the recorder to say what its `start` does; of
    /// one that does not say, anything may come.
    open spec fn start_gives(
        &self,
        params: RecorderStreamParams,
        outcome: Result<(), RecorderError>,
        state_after: RecorderState,
    ) -> bool {
        true
    }

    /// What a call of `process_result` with `result` may come to on this
    /// recorder: that it ends with `outcome` and leaves the recorder in the
    /// state `state_after`. It is for the recorder to say what its
    /// `process_result` does; of one that does not say, anything may come.
    open spec fn process_result_gives(
        &self,
        result: &ThermalCapturerResult,
        outcome: Result<(), RecorderError>,
        state_after: RecorderState,
    ) -> bool {
        true
    }

    /// What a call of `stop` may come to on this recorder: that it ends with
    /// `outcome` and leaves the recorder in the state `state_after`. It is for
    /// the recorder to say what its `stop` does; of one that does not say,
    /// anything may come.
    open spec fn stop_gives(&self, outcome: Result<(), RecorderError>, state_after: RecorderState) -> bool {
        true
    }

    /// Makes the recorder ready to take frames of the stream described.
    fn start(&mut self, params: RecorderStreamParams) -> (r: Result<(), RecorderError>)
        ensures
            old(self).start_gives(params, r, final(self).spec_state()),
    ;

    /// Hands one frame to the recorder.
    fn process_result(&mut self, result: &ThermalCapturerResult) -> (r: Result<(), RecorderError>)
        ensures
            old(self).process_result_gives(result, r, final(self).spec_state()),
    ;

    /// Ends the recording.
    fn stop(&mut self) -> (r: Result<(), RecorderError>)
        ensures
            old(self).stop_gives(r, final(self).spec_state()),
    ;

    /// Where the recorder stands in its life, as contracts speak of it. A
    /// recorder written outside verified code returns here what `state` returns.
    spec fn spec_state(&self) -> RecorderState;

    /// Where the recorder stands in its life.
    fn state(&self) -> (s: RecorderState)
        ensures
            s == self.spec_state(),
    ;

    /// The files that the recorder has written so far.
    fn files_created(&self) -> (files: Vec<String>);

    /// Whether the recorder goes on taking frames until it is stopped.
    fn is_continuous(&self) -> (b: bool);
}

/// What becomes of a recorder that was started and of the frame that is
/// ready: after a start that failed, the recorder is stopped and the failure
/// of the start is the outcome; after a start that went well, the recorder is
/// given the frame and what comes of that is the outcome, unless it has
/// finished at once, in which case it is left as it is and all is well.
pub open spec fn fed_after_start<R: Recorder>(
    started: R,
    start_outcome: Result<(), RecorderError>,
    result: &ThermalCapturerResult,
    after: R,
    outcome: Result<(), RecorderError>,
) -> bool {
    match start_outcome {
        Err(e) => {
            &&& outcome == Err::<(), RecorderError>(e)
            &&& exists|stop_outcome: Result<(), RecorderError>| #[trigger]
                started.stop_gives(stop_outcome, after.spec_state())
        },
        Ok(_) => if started.spec_state() == RecorderState::Done {
            after == started && outcome is Ok
        } else {
            started.process_result_gives(result, outcome, after.spec_state())
        },
    }
}

/// What `feed_recorder` makes of the recorder `before` when a frame is
/// ready: a recorder that has finished is left as it is, and all is well; a
/// recorder that takes frames is given the frame, and what comes of that is
/// the outcome; a recorder that has not been started is started with
/// `params`, and then dealt with as `fed_after_start` says.
pub open spec fn fed<R: Recorder>(
    before: R,
    params: RecorderStreamParams,
    result: &ThermalCapturerResult,
    after: R,
    outcome: Result<(), RecorderError>,
) -> bool {
    match before.spec_state().spec_step() {
        RecorderStep::Skip => after == before && outcome is Ok,
        RecorderStep::Feed => before.process_result_gives(result, outcome, after.spec_state()),
        RecorderStep::StartThenFeed => exists|started: R, start_outcome: Result<(), RecorderError>|
            {
                &&& #[trigger] before.start_gives(params, start_outcome, started.spec_state())
                &&& fed_after_start(started, start_outcome, result, after, outcome)
            },
    }
}

/// Every one of the recorders `before` was fed the frame, with the outcome
/// at its place in `outcomes`, and is now as at its place in `after`.
pub open spec fn all_fed<R: Recorder>(
    before: Seq<R>,
    params: RecorderStreamParams,
    result: &ThermalCapturerResult,
    after: Seq<R>,
    outcomes: Seq<Result<(), RecorderError>>,
) -> bool {
    &&& after.len() == before.len()
    &&& outcomes.len() == before.len()
    &&& forall|i: int|
        0 <= i < before.len() ==> fed(before[i], params, result, after[i], #[trigger] outcomes[i])
}

/// The first failure among `outcomes`, if there is one.
pub open spec fn first_failure(outcomes: Seq<Result<(), RecorderError>>) -> Option<RecorderError>
    decreases outcomes.len(),
{
    if outcomes.len() == 0 {
        None
    } else {
        spec_keep_first(first_failure(outcomes.drop_last()), outcomes.last())
    }
}

/// Every one of `recorders` has finished.
pub open spec fn all_finished<R: Recorder>(recorders: Seq<R>) -> bool {
    forall|i: int|
        0 <= i < recorders.len() ==> (#[trigger] recorders[i]).spec_state() == RecorderState::Done
}

/// Where no outcome is a failure, there is no first failure.
pub proof fn lemma_no_failure(outcomes: Seq<Result<(), RecorderError>>)
    requires
        forall|i: int| 0 <= i < outcomes.len() ==> (#[trigger] outcomes[i]) is Ok,
    ensures
        first_failure(outcomes) is None,
    decreases outcomes.len(),
{
    if outcomes.len() > 0 {
        lemma_no_failure(outcomes.drop_last());
    }
}

/// Recorders that have all finished are left as they are when a frame is
/// ready, and nothing fails.
pub proof fn lemma_finished_are_left<R: Recorder>(
    before: Seq<R>,
    params: RecorderStreamParams,
    result: &ThermalCapturerResult,
    after: Seq<R>,
    outcomes: Seq<Result<(), RecorderError>>,
)
    requires
        all_fed(before, params, result, after, outcomes),
        all_finished(before),
    ensures
        after == before,
        first_failure(outcomes) is None,
{
    assert forall|i: int| 0 <= i < outcomes.len() implies (#[trigger] outcomes[i]) is Ok by {
        assert(before[i].spec_state() == RecorderState::Done);
        assert(fed(before[i], params, result, after[i], outcomes[i]));
    }
    lemma_no_failure(outcomes);
    assert forall|i: int| 0 <= i < before.len() implies after[i] == before[i] by {
        assert(before[i].spec_state() == RecorderState::Done);
        assert(fed(before[i], params, result, after[i], outcomes[i]));
    }
    assert(after =~= before);
}

/// Hands a frame to one recorder, which is started first where it has not
/// been started. A recorder that cannot be started is stopped, so that it is
/// not tried again, and not given the frame. A recorder that has finished is
/// left alone.
pub fn feed_recorder<R: Recorder>(
    recorder: &mut R,
    params: RecorderStreamParams,
    result: &ThermalCapturerResult,
) -> (r: Result<(), RecorderError>)
    ensures
        fed(*old(recorder), params, result, *final(recorder), r),
        old(recorder).spec_state() == RecorderState::Done ==> r is Ok && *final(recorder) == *old(
            recorder,
        ),
{
    match recorder.state().step() {
        RecorderStep::Skip => Ok(()),
        RecorderStep::Feed => recorder.process_result(result),
        RecorderStep::StartThenFeed => {
            let started = recorder.start(params);
            let ghost at_start = *recorder;
            let outcome = match started {
                Err(e) => {
                    let _ = recorder.stop();
                    Err(e)
                },
                Ok(_) => {
                    if recorder.state().takes_frames() {
                        recorder.process_result(result)
                    } else {
                        Ok(())
                    }
                },
            };
            proof {
                assert(old(recorder).start_gives(params, started, at_start.spec_state()));
                assert(fed_after_start(at_start, started, result, *recorder, outcome));
            }
            outcome
        },
    }
}

/// Hands a frame to every recorder in turn, each as `feed_recorder` does. A
/// failure of one does not keep the frame from the others; the first failure
/// is returned, and all is well where there is none.
pub fn feed_recorders<R: Recorder>(
    recorders: &mut Vec<R>,
    params: RecorderStreamParams,
    result: &ThermalCapturerResult,
) -> (r: Result<(), RecorderError>)
    ensures
        final(recorders)@.len() == old(recorders)@.len(),
        exists|outcomes: Seq<Result<(), RecorderError>>|
            {
                &&& #[trigger] all_fed(old(recorders)@, params, result, final(recorders)@, outcomes)
                &&& r == (match first_failure(outcomes) {
                    Some(e) => Err::<(), RecorderError>(e),
                    None => Ok::<(), RecorderError>(()),
                })
            },
        forall|i: int|
            0 <= i < old(recorders)@.len() && (#[trigger] old(recorders)@[i]).spec_state()
                == RecorderState::Done ==> final(recorders)@[i] == old(recorders)@[i],
{
    let n: usize = recorders.len();
    let mut first: Option<RecorderError> = None;
    let ghost mut outcomes: Seq<Result<(), RecorderError>> = Seq::empty();
    let mut i: usize = 0;
    while i < n
        invariant
            n == recorders@.len(),
            n == old(recorders)@.len(),
            0 <= i <= n,
            outcomes.len() == i,
            first == first_failure(outcomes),
            forall|k: int| i <= k < n ==> recorders@[k] == old(recorders)@[k],
            forall|k: int|
                0 <= k < i ==> fed(
                    old(recorders)@[k],
                    params,
                    result,
                    recorders@[k],
                    #[trigger] outcomes[k],
                ),
        decreases n - i,
    {
        let ghost before = recorders@;
        let outcome = feed_recorder(&mut recorders[i], params, result);
        proof {
            assert(forall|k: int| 0 <= k < n && k != i ==> recorders@[k] == before[k]);
            assert(outcomes.push(outcome).drop_last() =~= outcomes);
            outcomes = outcomes.push(outcome);
        }
        first = keep_first(first, outcome);
        i += 1;
    }
    proof {
        assert(all_fed(old(recorders)@, params, result, recorders@, outcomes));
        assert forall|k: int|
            0 <= k < n && (#[trigger] old(recorders)@[k]).spec_state()
                == RecorderState::Done implies recorders@[k] == old(recorders)@[k] by {
            assert(fed(old(recorders)@[k], params, result, recorders@[k], outcomes[k]));
        }
    }
    match first {
        Some(e) => Err(e),
        None => Ok(()),
    }
}

/// Those of `recorders` that have not finished, in their order.
pub open spec fn unfinished<R: Recorder>(recorders: Seq<R>) -> Seq<R>
    decreases recorders.len(),
{
    if recorders.len() == 0 {
        Seq::empty()
    } else {
        let before = unfinished(recorders.drop_last());
        if recorders.last().spec_state() == RecorderState::Done {
            before
        } else {
            before.push(recorders.last())
        }
    }
}

/// Takes the recorders that have finished off the list, and says whether
/// there were any.
pub fn drop_finished<R: Recorder>(recorders: &mut Vec<R>) -> (dropped: bool)
    ensures
        final(recorders)@ == unfinished(old(recorders)@),
        dropped == (final(recorders)@.len() < old(recorders)@.len()),
{
    let ghost all = recorders@;
    let mut kept: Vec<R> = Vec::new();
    let mut dropped: bool = false;
    let ghost mut done: int = 0;
    while recorders.len() > 0
        invariant
            all == old(recorders)@,
            0 <= done <= all.len(),
            recorders@ == all.skip(done),
            kept@ == unfinished(all.take(done)),
            kept@.len() <= done,
            dropped == (kept@.len() < done),
        decreases recorders@.len(),
    {
        let recorder = recorders.remove(0);
        proof {
            assert(recorder == all[done]);
            assert(all.take(done + 1).drop_last() =~= all.take(done));
            assert(all.take(done + 1).last() == recorder);
            assert(all.skip(done).remove(0) =~= all.skip(done + 1));
        }
        if recorder.state().takes_frames() {
            kept.push(recorder);
        } else {
            dropped = true;
        }
        proof {
            done = done + 1;
        }
    }
    proof {
        assert(all.take(done) =~= all);
    }
    *recorders = kept;
    dropped
}

} // verus!
