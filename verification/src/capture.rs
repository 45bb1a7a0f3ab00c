//! The capture: which receives count toward the target, and when to stop.
use crate::frame::FrameKey;
use crate::frame::SimpleCanFrame;
use crate::observed::ObservedSet;
use crate::trace::law_zero_target;
use crate::trace::lemma_seen_step;
use crate::trace::lemma_successes_step;
use crate::trace::seen;
use crate::trace::stops_at;
use crate::trace::successes;
use crate::trace::Trace;
use vstd::prelude::*;

verus! {

/// What one blocking receive on the bus came back with.
#[derive(Debug)]
pub enum ReceiveOutcome {
    /// A frame arrived.
    Received(SimpleCanFrame),
    /// The transport reported an error; nothing arrived.
    Failed,
}

impl ReceiveOutcome {
    /// The identity of the frame that arrived, if one did.
    pub open spec fn key(&self) -> Option<FrameKey> {
        match self {
            ReceiveOutcome::Received(frame) => Some(frame.key()),
            ReceiveOutcome::Failed => None,
        }
    }
}

/// What the caller of a capture does next.
#[derive(Debug, Clone, Copy, PartialEq, Eq, Structural)]
pub enum Action {
    /// Receive once more.
    Receive,
    /// Write one diagnostic line for the failed receive, then receive once more.
    Retry,
    /// Stop receiving: the target is reached.
    Finish,
}

/// The abstract state of a capture.
pub ghost struct CaptureState {
    /// Identities observed so far.
    pub observed: Set<FrameKey>,
    /// Receives that delivered a frame so far.
    pub received: nat,
    /// Receives that must deliver a frame before the capture ends.
    pub target: nat,
}

/// The capture's rule: from a state and the outcome of one receive to the
/// next state and what to do then.
///
/// A frame that arrives is counted and its identity recorded; a failed
/// receive changes nothing and is retried; once the target is reached no
/// outcome changes anything.
pub open spec fn step_spec(state: CaptureState, event: Option<FrameKey>) -> (CaptureState, Action) {
    if state.received >= state.target {
        (state, Action::Finish)
    } else {
        match event {
            Some(key) => (
                CaptureState {
                    observed: state.observed.insert(key),
                    received: state.received + 1,
                    target: state.target,
                },
                if state.received + 1 == state.target {
                    Action::Finish
                } else {
                    Action::Receive
                },
            ),
            None => (state, Action::Retry),
        }
    }
}

/// A step never forgets an identity, never lowers the count and never
/// moves the target.
pub proof fn law_step_only_grows(state: CaptureState, event: Option<FrameKey>)
    ensures
        state.observed.subset_of(step_spec(state, event).0.observed),
        state.received <= step_spec(state, event).0.received,
        state.target == step_spec(state, event).0.target,
{
}

/// A capture in progress: the frames observed and the count of receives
/// that delivered one, against a fixed target.
#[derive(Debug)]
pub struct Capture {
    observed: ObservedSet,
    target: usize,
    received: usize,
}

impl View for Capture {
    type V = CaptureState;

    closed spec fn view(&self) -> CaptureState {
        CaptureState {
            observed: self.observed@,
            received: self.received as nat,
            target: self.target as nat,
        }
    }
}

impl Capture {
    /// The count never passes the target, and the set never holds more
    /// identities than frames were received.
    pub closed spec fn wf(&self) -> bool {
        &&& self.observed.wf()
        &&& self.received <= self.target
        &&& self.observed@.len() <= self.received
    }

    /// In every state of a capture the frames received are no more than the
    /// target, and the identities observed no more than the frames received.
    pub proof fn lemma_observed_bounded(&self)
        requires
            self.wf(),
        ensures
            self@.received <= self@.target,
            self@.observed.finite(),
            self@.observed.len() <= self@.received,
    {
        self.observed.lemma_finite();
    }

    /// Starts a capture of `frame_count` frames. With a target of zero the
    /// capture is over before any receive.
    pub fn begin(frame_count: usize) -> (start: (Capture, Action))
        ensures
            start.0.wf(),
            start.0@ == (CaptureState {
                observed: Set::empty(),
                received: 0,
                target: frame_count as nat,
            }),
            start.1 == if frame_count == 0 {
                Action::Finish
            } else {
                Action::Receive
            },
    {
        let capture = Capture { observed: ObservedSet::new(), target: frame_count, received: 0 };
        let action = if frame_count == 0 {
            Action::Finish
        } else {
            Action::Receive
        };
        (capture, action)
    }

    /// Whether the target is reached.
    pub fn is_complete(&self) -> (complete: bool)
        ensures
            complete == (self@.received == self@.target),
    {
        self.received == self.target
    }

    /// Takes in the outcome of one receive.
    pub fn step(&mut self, outcome: ReceiveOutcome) -> (action: Action)
        requires
            old(self).wf(),
        ensures
            final(self).wf(),
            (final(self)@, action) == step_spec(old(self)@, outcome.key()),
    {
        if self.received >= self.target {
            return Action::Finish;
        }
        match outcome {
            ReceiveOutcome::Received(frame) => {
                proof {
                    self.observed.lemma_finite();
                }
                self.observed.insert(frame);
                self.received = self.received + 1;
                if self.received == self.target {
                    Action::Finish
                } else {
                    Action::Receive
                }
            },
            ReceiveOutcome::Failed => Action::Retry,
        }
    }

    /// Ends the capture and hands out what was observed.
    pub fn into_observed(self) -> (observed: ObservedSet)
        requires
            self.wf(),
        ensures
            observed.wf(),
            observed@ == self@.observed,
    {
        self.observed
    }
}

/// The identities and failures of a sequence of outcomes, in order.
pub open spec fn trace_of(outcomes: Seq<ReceiveOutcome>) -> Trace {
    outcomes.map_values(|outcome: ReceiveOutcome| outcome.key())
}

/// How a capture over recorded outcomes ended.
#[derive(Debug)]
pub struct CaptureRun {
    /// The frames observed.
    pub observed: ObservedSet,
    /// The receives that were made.
    pub receive_calls: usize,
    /// Those of them that failed, one diagnostic line each.
    pub failed_calls: usize,
}

/// Runs a capture of `frame_count` frames over recorded outcomes, taken in
/// order in place of receives on a live bus.
///
/// The capture takes outcomes until `frame_count` of them delivered a frame
/// or none is left. It observes the identities that those outcomes
/// delivered; the outcomes after them are never looked at.
pub fn run_capture(outcomes: Vec<ReceiveOutcome>, frame_count: usize) -> (run: CaptureRun)
    ensures
        run.observed.wf(),
        stops_at(trace_of(outcomes@), frame_count as nat, run.receive_calls as int),
        run.observed@ == seen(trace_of(outcomes@).take(run.receive_calls as int)),
        run.receive_calls - run.failed_calls == successes(
            trace_of(outcomes@).take(run.receive_calls as int),
        ),
        run.observed@.finite(),
        run.observed@.len() <= run.receive_calls - run.failed_calls <= frame_count,
        frame_count == 0 ==> run.receive_calls == 0 && run.observed@ == Set::<FrameKey>::empty(),
{
    let ghost trace = trace_of(outcomes@);
    let (mut capture, _) = Capture::begin(frame_count);
    let mut receive_calls: usize = 0;
    let mut failed_calls: usize = 0;
    proof {
        assert(outcomes@.len() == outcomes.len());
        assert(seen(trace.take(0)) =~= Set::<FrameKey>::empty());
    }
    for outcome in it: outcomes.into_iter()
        invariant
            it.seq() == outcomes@,
            outcomes@.len() <= usize::MAX,
            trace == trace_of(outcomes@),
            capture.wf(),
            capture@.target == frame_count,
            receive_calls <= it.index(),
            failed_calls <= receive_calls,
            capture@.received == successes(trace.take(receive_calls as int)),
            capture@.observed == seen(trace.take(receive_calls as int)),
            receive_calls - failed_calls == capture@.received,
            capture@.received < capture@.target ==> receive_calls == it.index(),
            forall|m: int|
                0 <= m < receive_calls ==> #[trigger] successes(trace.take(m)) < frame_count,
    {
        if !capture.is_complete() {
            proof {
                lemma_successes_step(trace, receive_calls as int);
                lemma_seen_step(trace, receive_calls as int);
            }
            let action = capture.step(outcome);
            receive_calls = receive_calls + 1;
            if action == Action::Retry {
                failed_calls = failed_calls + 1;
            }
        }
    }
    proof {
        capture.lemma_observed_bounded();
        if frame_count == 0 {
            law_zero_target(trace, receive_calls as int);
        }
    }
    CaptureRun { observed: capture.into_observed(), receive_calls, failed_calls }
}

} // verus!
